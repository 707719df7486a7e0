//! Small extension traits.
use vstd::prelude::*;

verus! {

/// Moving a value onto the heap.
pub trait Boxed: Sized {
    fn boxed(self) -> (r: Box<Self>)
        ensures
            *r == self,
    ;
}

impl<T> Boxed for T {
    fn boxed(self) -> (r: Box<Self>) {
        Box::new(self)
    }
}

/// Borrowing a value as text.
pub trait AsStr {
    spec fn text(&self) -> Seq<char>;

    fn as_str(&self) -> (r: &str)
        ensures
            r@ == self.text(),
    ;
}

impl AsStr for &str {
    open spec fn text(&self) -> Seq<char> {
        (*self)@
    }

    fn as_str(&self) -> (r: &str) {
        self
    }
}

} // verus!
