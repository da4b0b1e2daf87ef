//! The plan scanner: one forward pass over the report's lines.
//!
//! The scanner skips the preamble until the line announcing that actions
//! follow (or the no-changes line, a successful empty result), finds the
//! first header line, and then alternates between decoding header/detail
//! pairs and accumulating body lines until the plan-summary line or the end
//! of input.

use vstd::prelude::*;
use crate::action::{Action, ActionView, ParseError};
use crate::decode::{decode_action, spec_decode};
use crate::text::{has_prefix, prefix_matches};

verus! {

/// The line announcing that the actions block follows.
pub open spec fn actions_start_line(l: Seq<char>) -> bool {
    has_prefix(l, "Terraform will perform the following actions:"@)
}

/// The line announcing that the plan proposes no changes.
pub open spec fn no_changes_line(l: Seq<char>) -> bool {
    has_prefix(l, "No changes. Infrastructure is up-to-date."@)
}

/// A header line, introducing one change.
pub open spec fn header_line(l: Seq<char>) -> bool {
    has_prefix(l, "  # "@)
}

/// The plan-summary line, ending the actions block.
pub open spec fn plan_line(l: Seq<char>) -> bool {
    has_prefix(l, "Plan: "@)
}

/// A body-close marker, finalizing the record in progress.
pub open spec fn close_line(l: Seq<char>) -> bool {
    has_prefix(l, "    }"@)
}

/// Either line that ends the preamble.
pub open spec fn marker_line(l: Seq<char>) -> bool {
    actions_start_line(l) || no_changes_line(l)
}

/// The record `cur` with one more body line.
pub open spec fn with_line(cur: ActionView, l: Seq<char>) -> ActionView {
    ActionView { content: cur.content.push(l), ..cur }
}

/// The index of the first preamble-ending marker at or after `i`, or the
/// number of lines if there is none.
pub open spec fn find_marker(lines: Seq<Seq<char>>, i: int) -> int
    decreases lines.len() - i,
{
    if i < 0 || i >= lines.len() {
        lines.len() as int
    } else if marker_line(lines[i]) {
        i
    } else {
        find_marker(lines, i + 1)
    }
}

/// The index of the first header line at or after `i`, or the number of
/// lines if there is none.
pub open spec fn find_header(lines: Seq<Seq<char>>, i: int) -> int
    decreases lines.len() - i,
{
    if i < 0 || i >= lines.len() {
        lines.len() as int
    } else if header_line(lines[i]) {
        i
    } else {
        find_header(lines, i + 1)
    }
}

/// What the main loop yields from line `i` on, with `cur` the record in
/// progress and `acc` the records finalized so far.
///
/// In priority order: a header line starts a new record (an unfinalized
/// `cur` is dropped, never appended); the plan-summary line ends the scan;
/// a close marker appends `cur` to `acc`; any other line is body text added
/// to `cur`. Running out of input ends the scan cleanly with the records
/// appended so far.
pub open spec fn spec_scan(
    lines: Seq<Seq<char>>,
    i: int,
    cur: ActionView,
    acc: Seq<ActionView>,
) -> Result<Seq<ActionView>, ParseError>
    decreases lines.len() - i,
{
    if i < 0 || i >= lines.len() {
        Ok(acc)
    } else if header_line(lines[i]) {
        if i + 1 >= lines.len() {
            Err(ParseError::MissingDetailLine)
        } else {
            match spec_decode(lines[i], lines[i + 1]) {
                Ok(a) => spec_scan(lines, i + 2, a, acc),
                Err(e) => Err(e),
            }
        }
    } else if plan_line(lines[i]) {
        Ok(acc)
    } else if close_line(lines[i]) {
        spec_scan(lines, i + 1, cur, acc.push(cur))
    } else {
        spec_scan(lines, i + 1, with_line(cur, lines[i]), acc)
    }
}

/// What parsing a whole report yields.
///
/// The preamble runs to the first marker line: the no-changes line is a
/// successful empty result, whatever follows it; the actions-start line
/// hands over to the header search. Input ending before a marker or before
/// the first header is the missing-header failure; a header as the last
/// line is the missing-detail failure. From the first decoded record on,
/// [`spec_scan`] states the loop.
pub open spec fn spec_parse(lines: Seq<Seq<char>>) -> Result<Seq<ActionView>, ParseError> {
    let p = find_marker(lines, 0);
    if p == lines.len() {
        Err(ParseError::MissingHeader)
    } else if actions_start_line(lines[p]) {
        let h = find_header(lines, p + 1);
        if h == lines.len() {
            Err(ParseError::MissingHeader)
        } else if h + 1 >= lines.len() {
            Err(ParseError::MissingDetailLine)
        } else {
            match spec_decode(lines[h], lines[h + 1]) {
                Ok(a) => spec_scan(lines, h + 2, a, Seq::empty()),
                Err(e) => Err(e),
            }
        }
    } else {
        Ok(Seq::empty())
    }
}

/// Finds the first preamble-ending marker; executable form of [`find_marker`].
fn seek_marker(lines: &Vec<String>) -> (r: usize)
    ensures
        r == find_marker(lines.deep_view(), 0),
        r <= lines.len(),
{
    let ghost lv = lines.deep_view();
    let n = lines.len();
    proof {
        assert(lv.len() == n as int);
    }
    let mut p: usize = 0;
    while p < n
        invariant
            p <= n,
            n == lines.len(),
            lv == lines.deep_view(),
            lv.len() == n as int,
            find_marker(lv, 0) == find_marker(lv, p as int),
        decreases n - p,
    {
        proof {
            assert(lv[p as int] == lines@[p as int]@);
        }
        if prefix_matches(lines[p].as_str(), "Terraform will perform the following actions:")
            || prefix_matches(lines[p].as_str(), "No changes. Infrastructure is up-to-date.") {
            return p;
        }
        p = p + 1;
    }
    n
}

/// Finds the first header line at or after `from`; executable form of
/// [`find_header`].
fn seek_header(lines: &Vec<String>, from: usize) -> (r: usize)
    requires
        from <= lines@.len(),
    ensures
        r == find_header(lines.deep_view(), from as int),
        from <= r <= lines.len(),
{
    let ghost lv = lines.deep_view();
    let n = lines.len();
    proof {
        assert(lv.len() == n as int);
    }
    let mut p: usize = from;
    while p < n
        invariant
            from <= p <= n,
            n == lines.len(),
            lv == lines.deep_view(),
            lv.len() == n as int,
            find_header(lv, from as int) == find_header(lv, p as int),
        decreases n - p,
    {
        proof {
            assert(lv[p as int] == lines@[p as int]@);
        }
        if prefix_matches(lines[p].as_str(), "  # ") {
            return p;
        }
        p = p + 1;
    }
    n
}

/// Parses a whole report, given as its lines in input order, into the
/// ordered sequence of finalized records, exactly as [`spec_parse`] states.
pub fn parse_report(lines: &Vec<String>) -> (r: Result<Vec<Action>, ParseError>)
    ensures
        match spec_parse(lines.deep_view()) {
            Ok(acts) => r is Ok && r->Ok_0.deep_view() == acts,
            Err(e) => r is Err && r->Err_0 == e,
        },
{
    let ghost lv = lines.deep_view();
    let n = lines.len();
    proof {
        assert(lv.len() == n as int);
    }
    let p = seek_marker(lines);
    if p == n {
        return Err(ParseError::MissingHeader);
    }
    proof {
        assert(lv[p as int] == lines@[p as int]@);
    }
    if !prefix_matches(lines[p].as_str(), "Terraform will perform the following actions:") {
        let r: Vec<Action> = Vec::new();
        proof {
            assert(r.deep_view() =~= Seq::<ActionView>::empty());
        }
        return Ok(r);
    }
    let h = seek_header(lines, p + 1);
    if h == n {
        return Err(ParseError::MissingHeader);
    }
    if h + 1 == n {
        return Err(ParseError::MissingDetailLine);
    }
    proof {
        assert(lv[h as int] == lines@[h as int]@);
        assert(lv[h + 1] == lines@[h + 1]@);
    }
    let mut cur = match decode_action(lines[h].as_str(), lines[h + 1].as_str()) {
        Ok(a) => a,
        Err(e) => {
            return Err(e);
        },
    };
    let mut acc: Vec<Action> = Vec::new();
    let mut i = h + 2;
    proof {
        assert(acc.deep_view() =~= Seq::<ActionView>::empty());
    }
    while i < n
        invariant
            i <= n,
            n == lines.len(),
            lv == lines.deep_view(),
            lv.len() == n as int,
            spec_scan(lv, i as int, cur@, acc.deep_view()) == spec_parse(lv),
        decreases n - i,
    {
        proof {
            assert(lv[i as int] == lines@[i as int]@);
        }
        if prefix_matches(lines[i].as_str(), "  # ") {
            if i + 1 == n {
                return Err(ParseError::MissingDetailLine);
            }
            proof {
                assert(lv[i + 1] == lines@[i + 1]@);
            }
            match decode_action(lines[i].as_str(), lines[i + 1].as_str()) {
                Ok(a) => {
                    cur = a;
                    i = i + 2;
                },
                Err(e) => {
                    return Err(e);
                },
            }
        } else if prefix_matches(lines[i].as_str(), "Plan: ") {
            return Ok(acc);
        } else if prefix_matches(lines[i].as_str(), "    }") {
            let ghost old_acc = acc.deep_view();
            acc.push(cur.clone());
            proof {
                assert(acc.deep_view() =~= old_acc.push(cur@));
            }
            i = i + 1;
        } else {
            let ghost old_cur = cur@;
            cur.content.push(lines[i].clone());
            proof {
                assert(cur@.content =~= old_cur.content.push(lv[i as int]));
                assert(cur@ =~= with_line(old_cur, lv[i as int]));
            }
            i = i + 1;
        }
    }
    Ok(acc)
}

} // verus!
