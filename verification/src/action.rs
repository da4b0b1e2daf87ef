//! The structured record a plan report decodes into: an action kind, the
//! identifying fields of the changed resource, and the captured body lines.

use vstd::prelude::*;

verus! {

/// The kind of change a plan proposes for one resource. Each kind is tied to
/// a fixed symbol in the report's detail line.
#[derive(Clone, Copy, Debug, PartialEq, Eq, Structural)]
pub enum ActionType {
    /// `+`: the resource will be created.
    Create,
    /// `~`: the resource will be updated in place.
    Update,
    /// `-`: the resource will be destroyed.
    Destroy,
    /// `-/+`: the resource will be destroyed, then recreated.
    DestroyThenCreate,
    /// `+/-`: a new resource is created, then the old one removed.
    DuplicateThenRemove,
}

/// The three-character symbol under which a change kind is listed in a
/// rendered summary entry.
pub open spec fn spec_symbol(t: ActionType) -> Seq<char> {
    match t {
        ActionType::Create => "  +"@,
        ActionType::Update => "  ~"@,
        ActionType::Destroy => "  -"@,
        ActionType::DestroyThenCreate => "-/+"@,
        ActionType::DuplicateThenRemove => "+/-"@,
    }
}

impl ActionType {
    /// The summary symbol of this change kind.
    pub fn symbol(&self) -> (r: &'static str)
        ensures
            r@ == spec_symbol(*self),
    {
        match self {
            ActionType::Create => "  +",
            ActionType::Update => "  ~",
            ActionType::Destroy => "  -",
            ActionType::DestroyThenCreate => "-/+",
            ActionType::DuplicateThenRemove => "+/-",
        }
    }
}

/// Why a report could not be decoded. Every failure aborts the whole run:
/// the report is a single forward, non-recoverable parse.
#[derive(Clone, Copy, Debug, PartialEq, Eq, Structural)]
pub enum ParseError {
    /// Input ended before a header line was found.
    MissingHeader,
    /// A header line has fewer than two whitespace-separated tokens.
    MissingReferenceToken,
    /// Input ended before the detail line of a header could be read.
    MissingDetailLine,
    /// The four-character type field of a detail line matches no known symbol.
    UnrecognizedTypeSymbol,
    /// A detail line lacks the opening quote or the quoted closing suffix.
    MalformedQuoting,
    /// The quoted part of a detail line has fewer than two parts.
    MissingResourceOrName,
}

/// The message a presentation layer shows for each failure.
pub open spec fn spec_message(e: ParseError) -> Seq<char> {
    match e {
        ParseError::MissingHeader => "missing first header"@,
        ParseError::MissingReferenceToken => "expecting resource reference"@,
        ParseError::MissingDetailLine => "expecting detail line"@,
        ParseError::UnrecognizedTypeSymbol => "unexpected action type"@,
        ParseError::MalformedQuoting => "expecting quoted resource and name"@,
        ParseError::MissingResourceOrName => "expecting resource and name"@,
    }
}

impl ParseError {
    /// A short description of the failure, naming the stage that failed.
    pub fn message(&self) -> (r: &'static str)
        ensures
            r@ == spec_message(*self),
    {
        match self {
            ParseError::MissingHeader => "missing first header",
            ParseError::MissingReferenceToken => "expecting resource reference",
            ParseError::MissingDetailLine => "expecting detail line",
            ParseError::UnrecognizedTypeSymbol => "unexpected action type",
            ParseError::MalformedQuoting => "expecting quoted resource and name",
            ParseError::MissingResourceOrName => "expecting resource and name",
        }
    }
}

/// The mathematical value of an [`Action`]: its fields as sequences.
#[verifier::ext_equal]
pub struct ActionView {
    pub typ: ActionType,
    pub reference: Seq<char>,
    pub resource: Seq<char>,
    pub name: Seq<char>,
    pub content: Seq<Seq<char>>,
}

/// One proposed change, decoded from a header line and its detail line, with
/// the body lines captured until the closing marker.
#[derive(Debug)]
pub struct Action {
    /// The kind of change, decoded from the detail line's symbol field.
    pub typ: ActionType,
    /// The identifier of the change: the second token of the header line,
    /// a dotted module/resource/key path.
    pub reference: String,
    /// The resource type name, the first quoted part of the detail line.
    pub resource: String,
    /// The resource instance name, the second quoted part of the detail line.
    pub name: String,
    /// The body lines belonging to this change, in input order. Empty when
    /// the closing marker follows the detail line directly.
    pub content: Vec<String>,
}

impl View for Action {
    type V = ActionView;

    open spec fn view(&self) -> ActionView {
        ActionView {
            typ: self.typ,
            reference: self.reference@,
            resource: self.resource@,
            name: self.name@,
            content: self.content.deep_view(),
        }
    }
}

impl DeepView for Action {
    type V = ActionView;

    open spec fn deep_view(&self) -> ActionView {
        self.view()
    }
}

/// The one-line summary entry of a record: symbol, resource and name,
/// separated by single spaces.
pub open spec fn spec_label(a: ActionView) -> Seq<char> {
    spec_symbol(a.typ) + " "@ + a.resource + " "@ + a.name
}

/// The body lines of a record as one text, each line followed by a newline.
pub open spec fn spec_body_text(content: Seq<Seq<char>>) -> Seq<char>
    decreases content.len(),
{
    if content.len() == 0 {
        Seq::empty()
    } else {
        content[0] + "\n"@ + spec_body_text(content.drop_first())
    }
}

impl Action {
    /// The summary entry a presentation layer lists this record under.
    pub fn label(&self) -> (r: String)
        ensures
            r@ == spec_label(self@),
    {
        let mut s = String::from_str(self.typ.symbol());
        s.append(" ");
        s.append(self.resource.as_str());
        s.append(" ");
        s.append(self.name.as_str());
        proof {
            assert(s@ =~= spec_label(self@));
        }
        s
    }

    /// The full body of this record as one text, line by line.
    pub fn content_text(&self) -> (r: String)
        ensures
            r@ == spec_body_text(self@.content),
    {
        let ghost cv = self@.content;
        let mut s = String::new();
        let mut k: usize = 0;
        proof {
            assert(cv.subrange(0, cv.len() as int) =~= cv);
            assert(s@ + spec_body_text(cv) =~= spec_body_text(cv));
        }
        while k < self.content.len()
            invariant
                k <= self.content.len(),
                cv == self@.content,
                cv.len() == self.content.len() as int,
                spec_body_text(cv) == s@ + spec_body_text(cv.subrange(k as int, cv.len() as int)),
            decreases self.content.len() - k,
        {
            proof {
                let rest = cv.subrange(k as int, cv.len() as int);
                assert(rest[0] == cv[k as int]);
                assert(rest.drop_first() =~= cv.subrange(k + 1, cv.len() as int));
                assert(cv[k as int] == self.content@[k as int]@);
            }
            s.append(self.content[k].as_str());
            s.append("\n");
            k = k + 1;
            proof {
                assert(spec_body_text(cv) == s@ + spec_body_text(
                    cv.subrange(k as int, cv.len() as int),
                ));
            }
        }
        proof {
            assert(cv.subrange(k as int, cv.len() as int) =~= Seq::<Seq<char>>::empty());
            assert(s@ + spec_body_text(Seq::empty()) =~= s@);
        }
        s
    }
}

impl Clone for Action {
    fn clone(&self) -> (r: Self)
        ensures
            r@ == self@,
    {
        let mut content: Vec<String> = Vec::new();
        let mut k: usize = 0;
        while k < self.content.len()
            invariant
                k <= self.content.len(),
                content@.len() == k as int,
                forall|j: int| 0 <= j < k ==> content@[j] == self.content@[j],
            decreases self.content.len() - k,
        {
            content.push(self.content[k].clone());
            k = k + 1;
        }
        proof {
            assert(content.deep_view() =~= self.content.deep_view());
        }
        Action {
            typ: self.typ,
            reference: self.reference.clone(),
            resource: self.resource.clone(),
            name: self.name.clone(),
            content,
        }
    }
}

} // verus!
