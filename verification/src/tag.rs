use vstd::prelude::*;

verus! {

/// A source position: the half-open byte range of the originating input text.
#[derive(Clone, Copy, PartialEq, Eq, Structural, Debug)]
pub struct Span {
    pub start: usize,
    pub end: usize,
}

impl Span {
    pub fn new(start: usize, end: usize) -> (r: Span)
        ensures
            r == (Span { start, end }),
    {
        Span { start, end }
    }

    /// The span used when no source text is associated with a value.
    pub fn unknown() -> (r: Span)
        ensures
            r == (Span { start: 0, end: 0 }),
    {
        Span { start: 0, end: 0 }
    }
}

/// A source-position tag: a span plus an optional origin description
/// (for example the file the text came from).
#[derive(Debug)]
pub struct Tag {
    pub span: Span,
    pub anchor: Option<String>,
}

/// The mathematical content of a `Tag`.
pub struct TagV {
    pub span: Span,
    pub anchor: Option<Seq<char>>,
}

impl View for Tag {
    type V = TagV;

    open spec fn view(&self) -> TagV {
        TagV {
            span: self.span,
            anchor: match self.anchor {
                Some(ref a) => Some(a@),
                None => None,
            },
        }
    }
}

impl Tag {
    pub fn unknown() -> (r: Tag)
        ensures
            r@ == (TagV { span: Span { start: 0, end: 0 }, anchor: None::<Seq<char>> }),
    {
        Tag { span: Span::unknown(), anchor: None }
    }

    pub fn from_span(span: Span) -> (r: Tag)
        ensures
            r@ == (TagV { span, anchor: None::<Seq<char>> }),
    {
        Tag { span, anchor: None }
    }

    pub fn duplicate(&self) -> (r: Tag)
        ensures
            r@ == self@,
    {
        Tag {
            span: self.span,
            anchor: match &self.anchor {
                Some(a) => Some(a.clone()),
                None => None,
            },
        }
    }
}

} // verus!
