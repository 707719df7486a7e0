//! Source files and byte spans into them.
use vstd::prelude::*;

verus! {

/// A named source text, as given to the lexer.
#[derive(Debug, Clone)]
pub struct SourceInfo {
    name: String,
    source: String,
}

impl View for SourceInfo {
    /// The name and the text.
    type V = (Seq<char>, Seq<char>);

    closed spec fn view(&self) -> (Seq<char>, Seq<char>) {
        (self.name@, self.source@)
    }
}

impl SourceInfo {
    pub fn new(name: String, source: String) -> (r: Self)
        ensures
            r@ == (name@, source@),
    {
        Self { name, source }
    }

    /// The source text.
    pub fn inner(&self) -> (r: &str)
        ensures
            r@ == self@.1,
    {
        self.source.as_str()
    }

    /// The name of the source.
    pub fn name(&self) -> (r: &str)
        ensures
            r@ == self@.0,
    {
        self.name.as_str()
    }

    /// A second handle on the same source.
    pub fn share(&self) -> (r: Self)
        ensures
            r@ == self@,
    {
        Self { name: self.name.clone(), source: self.source.clone() }
    }
}

/// A range of bytes in a source text: `length` bytes from `offset`.
#[derive(Debug, Default, Clone, Copy, PartialEq, Eq, Structural)]
pub struct Span {
    pub offset: usize,
    pub length: usize,
}

impl Span {
    pub fn new(offset: usize, length: usize) -> (r: Self)
        ensures
            r == (Span { offset, length }),
    {
        Self { offset, length }
    }

    pub fn offset(&self) -> (r: usize)
        ensures
            r == self.offset,
    {
        self.offset
    }

    pub fn len(&self) -> (r: usize)
        ensures
            r == self.length,
    {
        self.length
    }

    /// The span from the start of `self` to the end of `other`.
    pub fn enclosing_to(&self, other: &Self) -> (r: Self)
        requires
            self.offset <= other.offset,
            other.offset + other.length <= usize::MAX,
        ensures
            r.offset == self.offset,
            r.offset + r.length == other.offset + other.length,
    {
        let length = other.offset - self.offset + other.length;
        Self { offset: self.offset, length }
    }
}

impl From<(usize, usize)> for Span {
    fn from(pair: (usize, usize)) -> (r: Self) {
        Self { offset: pair.0, length: pair.1 }
    }
}

impl vstd::std_specs::convert::FromSpecImpl<(usize, usize)> for Span {
    open spec fn obeys_from_spec() -> bool {
        true
    }

    open spec fn from_spec(pair: (usize, usize)) -> Span {
        Span { offset: pair.0, length: pair.1 }
    }
}

} // verus!
