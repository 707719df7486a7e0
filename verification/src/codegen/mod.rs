//! Code generation support shared by the back ends.
use vstd::prelude::*;

use crate::text::{push_char, push_str};

pub mod c;
pub mod command;
pub mod qbe;

verus! {

/// How to build an executable.
pub struct BuildOpts {
    pub release: bool,
    pub outdir: String,
    pub cleanup: bool,
}

/// `text` in double quotes.
pub fn quote(text: &str) -> (r: String)
    ensures
        r@ == seq!['"'] + text@ + seq!['"'],
{
    let mut buf = String::new();
    push_char(&mut buf, '"');
    push_str(&mut buf, text);
    push_char(&mut buf, '"');
    proof {
        assert(buf@ =~= seq!['"'] + text@ + seq!['"']);
    }
    buf
}

} // verus!
