//! The names under which associated items are emitted.
use vstd::prelude::*;

use crate::ast::Ident;
use crate::text::push_str;

verus! {

/// A name made unique for the output.
#[derive(Debug)]
pub enum Mangle<'a> {
    /// an item `item` associated with the definition `def`
    AssocItem(&'a Ident, &'a Ident),
}

impl<'a> Mangle<'a> {
    /// `_def_item` for an associated item.
    pub fn to_string(&self) -> (r: String)
        ensures
            match *self {
                Mangle::AssocItem(def, item) => r@ == "_"@ + def.inner@ + "_"@ + item.inner@,
            },
    {
        let mut out = String::new();
        match self {
            Mangle::AssocItem(def, item) => {
                push_str(&mut out, "_");
                push_str(&mut out, def.inner.as_str());
                push_str(&mut out, "_");
                push_str(&mut out, item.inner.as_str());
            },
        }
        out
    }
}

} // verus!
