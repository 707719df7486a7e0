//! The printed form of a type, as error messages show it.
use vstd::prelude::*;

verus! {

/// The text of a type, made once and shown in error messages.
#[derive(Debug)]
pub struct TyDisplay(String);

impl TyDisplay {
    /// Holds `text` as the printed form of a type.
    pub fn from_text(text: String) -> (r: Self)
        ensures
            r.text() == text@,
    {
        TyDisplay(text)
    }

    pub closed spec fn text(&self) -> Seq<char> {
        self.0@
    }

    pub fn as_str(&self) -> (r: &str)
        ensures
            r@ == self.text(),
    {
        self.0.as_str()
    }
}

} // verus!
