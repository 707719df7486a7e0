//! The C back end: the operators of the language as C spells them, a C syntax tree and the
//! command line of the system C compiler.
use vstd::prelude::*;

use std::path::PathBuf;

use crate::ast::fmt::binop_text;
use crate::ast::{BinOpKind, UnaryOpKind};
use crate::lexer::spelling;
use crate::parser::ops::ascii_chars;
use crate::parser::unary_token;

pub mod ast;
pub mod compiler;

verus! {

/// A path of the file system (`std::path::PathBuf`), carried through unread.
#[verifier::external_type_specification]
#[verifier::external_body]
pub struct ExPathBuf(PathBuf);

/// The C spelling of a binary operator.
pub open spec fn c_bin_op(kind: BinOpKind) -> Seq<char> {
    match kind {
        BinOpKind::Eq => "=="@,
        BinOpKind::Ne => "!="@,
        BinOpKind::Add => "+"@,
        BinOpKind::Sub => "-"@,
        BinOpKind::Mul => "*"@,
        BinOpKind::Div => "/"@,
        BinOpKind::Lt => "<"@,
        BinOpKind::Gt => ">"@,
        BinOpKind::And => "&&"@,
        BinOpKind::Or => "||"@,
    }
}

/// The C spelling of a prefix operator.
pub open spec fn c_unary_op(kind: UnaryOpKind) -> Seq<char> {
    match kind {
        UnaryOpKind::Negate => "-"@,
        UnaryOpKind::Not => "!"@,
    }
}

/// The C back end, with the directory into which it writes the headers it includes.
pub struct C {
    tempdir: PathBuf,
}

impl C {
    /// The directory into which this back end writes the headers it includes.
    pub closed spec fn tempdir(&self) -> PathBuf {
        self.tempdir
    }

    /// A back end that writes its headers into `tempdir`.
    pub fn new(tempdir: PathBuf) -> (r: Self)
        ensures
            r.tempdir() == tempdir,
    {
        C { tempdir }
    }

    pub fn lower_bin_op(kind: &BinOpKind) -> (r: &'static str)
        ensures
            r@ == c_bin_op(*kind),
    {
        match kind {
            BinOpKind::Eq => "==",
            BinOpKind::Ne => "!=",
            BinOpKind::Add => "+",
            BinOpKind::Sub => "-",
            BinOpKind::Mul => "*",
            BinOpKind::Div => "/",
            BinOpKind::Lt => "<",
            BinOpKind::Gt => ">",
            BinOpKind::And => "&&",
            BinOpKind::Or => "||",
        }
    }

    pub fn lower_unary_op(kind: &UnaryOpKind) -> (r: &'static str)
        ensures
            r@ == c_unary_op(*kind),
    {
        match kind {
            UnaryOpKind::Negate => "-",
            UnaryOpKind::Not => "!",
        }
    }
}

/// C writes the operators of the language as the language does, but for `and` and `or`, which
/// it writes `&&` and `||`; its prefix operators are the tokens they are parsed from.
pub proof fn lemma_c_operators_as_written(k: BinOpKind, u: UnaryOpKind)
    ensures
        k != BinOpKind::And && k != BinOpKind::Or ==> c_bin_op(k) == binop_text(k),
        c_bin_op(BinOpKind::And) == seq!['&', '&'],
        c_bin_op(BinOpKind::Or) == seq!['|', '|'],
        c_unary_op(u) == ascii_chars(spelling(unary_token(u))->0),
{
    reveal_strlit("&&");
    reveal_strlit("||");
    reveal_strlit("-");
    reveal_strlit("!");
    assert(c_bin_op(BinOpKind::And) =~= seq!['&', '&']);
    assert(c_bin_op(BinOpKind::Or) =~= seq!['|', '|']);
    assert(c_unary_op(u) =~= ascii_chars(spelling(unary_token(u))->0));
}

} // verus!
