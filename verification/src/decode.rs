//! The action decoder: turns a header line and its detail line into an
//! [`Action`] skeleton with empty content.
//!
//! The header line contributes the reference (its second whitespace token).
//! The detail line has a fixed layout: a four-character symbol field, a
//! nine-character literal, then a quoted `"resource" "name"` pair ending in
//! a brace suffix.

use vstd::prelude::*;
use crate::action::{Action, ActionType, ActionView, ParseError};
use crate::text::{
    advance_spaces, advance_token, second_token, skip_spaces, skip_token, spec_trim, trim_str,
};

verus! {

/// Width of the symbol field at the start of a detail line.
pub const SYMBOL_WIDTH: usize = 4;

/// Width of the symbol field plus the fixed `resources` literal that follows
/// it; the quoted pair starts after this many characters.
pub const QUOTED_START: usize = 13;

/// The change kind a four-character symbol field stands for, if any. Each
/// symbol is padded with spaces to the full field width.
pub open spec fn spec_symbol_of(s: Seq<char>) -> Option<ActionType> {
    if s == "  + "@ {
        Some(ActionType::Create)
    } else if s == "  ~ "@ {
        Some(ActionType::Update)
    } else if s == "  - "@ {
        Some(ActionType::Destroy)
    } else if s == "-/+ "@ {
        Some(ActionType::DestroyThenCreate)
    } else if s == "+/- "@ {
        Some(ActionType::DuplicateThenRemove)
    } else {
        None
    }
}

/// A quote-space-quote separator stands at position `i` of `s`.
pub open spec fn sep_at(s: Seq<char>, i: int) -> bool {
    0 <= i && i + 3 <= s.len() && s[i] == '"' && s[i + 1] == ' ' && s[i + 2] == '"'
}

/// The position of the first separator at or after `i`, or the length of `s`
/// if there is none.
pub open spec fn find_sep(s: Seq<char>, i: int) -> int
    decreases s.len() - i,
{
    if i < 0 || i + 3 > s.len() {
        s.len() as int
    } else if sep_at(s, i) {
        i
    } else {
        find_sep(s, i + 1)
    }
}

/// What decoding a header line and its detail line yields: the record
/// skeleton, or the failure that aborts the run.
///
/// The steps, in order: take the header's second whitespace token as the
/// reference; match the detail's first four characters against the symbol
/// table; skip the fixed literal after the symbol field; trim the remainder
/// and strip its bounding quote and closing suffix; split the inner text at
/// the first separator into resource and name.
pub open spec fn spec_decode(header: Seq<char>, detail: Seq<char>) -> Result<
    ActionView,
    ParseError,
> {
    match second_token(header) {
        None => Err(ParseError::MissingReferenceToken),
        Some(reference) => if detail.len() < SYMBOL_WIDTH {
            Err(ParseError::UnrecognizedTypeSymbol)
        } else {
            match spec_symbol_of(detail.subrange(0, SYMBOL_WIDTH as int)) {
                None => Err(ParseError::UnrecognizedTypeSymbol),
                Some(typ) => if detail.len() < QUOTED_START {
                    Err(ParseError::MalformedQuoting)
                } else {
                    let rest = spec_trim(detail.subrange(QUOTED_START as int, detail.len() as int));
                    if rest.len() < 4 || rest[0] != '"' || rest.subrange(
                        rest.len() - 3,
                        rest.len() as int,
                    ) != "\" {"@ {
                        Err(ParseError::MalformedQuoting)
                    } else {
                        let inner = rest.subrange(1, rest.len() - 3);
                        let r0 = find_sep(inner, 0);
                        if r0 == inner.len() {
                            Err(ParseError::MissingResourceOrName)
                        } else {
                            Ok(ActionView {
                                typ,
                                reference,
                                resource: inner.subrange(0, r0),
                                name: inner.subrange(r0 + 3, find_sep(inner, r0 + 3)),
                                content: Seq::empty(),
                            })
                        }
                    }
                },
            }
        },
    }
}

/// Matches the first four characters of a detail line against the symbol
/// table.
fn symbol_of(detail: &str) -> (r: Option<ActionType>)
    requires
        detail@.len() >= SYMBOL_WIDTH,
    ensures
        r == spec_symbol_of(detail@.subrange(0, SYMBOL_WIDTH as int)),
{
    let c0 = detail.get_char(0);
    let c1 = detail.get_char(1);
    let c2 = detail.get_char(2);
    let c3 = detail.get_char(3);
    proof {
        reveal_strlit("  + ");
        reveal_strlit("  ~ ");
        reveal_strlit("  - ");
        reveal_strlit("-/+ ");
        reveal_strlit("+/- ");
    }
    let ghost s = detail@.subrange(0, SYMBOL_WIDTH as int);
    proof {
        assert(s.len() == 4);
        assert(s[0] == c0 && s[1] == c1 && s[2] == c2 && s[3] == c3);
    }
    if c0 == ' ' && c1 == ' ' && c2 == '+' && c3 == ' ' {
        proof {
            assert(s =~= "  + "@);
        }
        Some(ActionType::Create)
    } else if c0 == ' ' && c1 == ' ' && c2 == '~' && c3 == ' ' {
        proof {
            assert(s =~= "  ~ "@);
        }
        Some(ActionType::Update)
    } else if c0 == ' ' && c1 == ' ' && c2 == '-' && c3 == ' ' {
        proof {
            assert(s =~= "  - "@);
        }
        Some(ActionType::Destroy)
    } else if c0 == '-' && c1 == '/' && c2 == '+' && c3 == ' ' {
        proof {
            assert(s =~= "-/+ "@);
        }
        Some(ActionType::DestroyThenCreate)
    } else if c0 == '+' && c1 == '/' && c2 == '-' && c3 == ' ' {
        proof {
            assert(s =~= "+/- "@);
        }
        Some(ActionType::DuplicateThenRemove)
    } else {
        None
    }
}

/// Finds the first quote-space-quote separator of `s` at or after `from`;
/// executable form of [`find_sep`].
fn seek_sep(s: &str, from: usize) -> (r: usize)
    requires
        from <= s@.len(),
    ensures
        r == find_sep(s@, from as int),
        from <= r <= s@.len(),
        r < s@.len() ==> sep_at(s@, r as int),
{
    let n = s.unicode_len();
    let mut j = from;
    while n >= 3 && j <= n - 3
        invariant
            from <= j,
            j <= n,
            n == s@.len(),
            find_sep(s@, from as int) == find_sep(s@, j as int),
        decreases n - j,
    {
        if s.get_char(j) == '"' && s.get_char(j + 1) == ' ' && s.get_char(j + 2) == '"' {
            proof {
                assert(sep_at(s@, j as int));
            }
            return j;
        }
        j = j + 1;
    }
    proof {
        assert(find_sep(s@, j as int) == n as int);
    }
    n
}

/// Decodes one header line and its detail line into an [`Action`] skeleton
/// with empty content, exactly as [`spec_decode`] states.
pub fn decode_action(header: &str, detail: &str) -> (r: Result<Action, ParseError>)
    ensures
        match spec_decode(header@, detail@) {
            Ok(a) => r is Ok && r->Ok_0@ == a,
            Err(e) => r is Err && r->Err_0 == e,
        },
{
    let hn = header.unicode_len();
    let a = advance_spaces(header, 0);
    let b = advance_token(header, a);
    let c = advance_spaces(header, b);
    if c >= hn {
        return Err(ParseError::MissingReferenceToken);
    }
    let d = advance_token(header, c);
    let reference = String::from_str(header.substring_char(c, d));

    let dn = detail.unicode_len();
    if dn < SYMBOL_WIDTH {
        return Err(ParseError::UnrecognizedTypeSymbol);
    }
    let typ = match symbol_of(detail) {
        Some(t) => t,
        None => {
            return Err(ParseError::UnrecognizedTypeSymbol);
        },
    };
    if dn < QUOTED_START {
        return Err(ParseError::MalformedQuoting);
    }
    let rest = trim_str(detail.substring_char(QUOTED_START, dn));
    let rn = rest.unicode_len();
    proof {
        reveal_strlit("\" {");
    }
    if rn < 4 || rest.get_char(0) != '"' {
        return Err(ParseError::MalformedQuoting);
    }
    let ghost suffix = rest@.subrange(rn - 3, rn as int);
    proof {
        assert(suffix.len() == 3);
        assert(suffix[0] == rest@[rn - 3] && suffix[1] == rest@[rn - 2] && suffix[2] == rest@[rn
            - 1]);
    }
    if rest.get_char(rn - 3) != '"' || rest.get_char(rn - 2) != ' ' || rest.get_char(rn - 1) != '{'
    {
        return Err(ParseError::MalformedQuoting);
    }
    proof {
        assert(suffix =~= "\" {"@);
    }
    let inner = rest.substring_char(1, rn - 3);
    let inn = inner.unicode_len();
    let r0 = seek_sep(inner, 0);
    if r0 == inn {
        return Err(ParseError::MissingResourceOrName);
    }
    let resource = String::from_str(inner.substring_char(0, r0));
    let r1 = seek_sep(inner, r0 + 3);
    let name = String::from_str(inner.substring_char(r0 + 3, r1));
    let act = Action { typ, reference, resource, name, content: Vec::new() };
    proof {
        assert(act@.content =~= Seq::<Seq<char>>::empty());
        assert(act@ =~= spec_decode(header@, detail@)->Ok_0);
    }
    Ok(act)
}

} // verus!
