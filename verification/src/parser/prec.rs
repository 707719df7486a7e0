//! Binding strength of operators.
use vstd::prelude::*;

use crate::lexer::token::{Token, TokenKind};

verus! {

/// Precedence of a token produced by the lexer
///
/// this dictates the order in which expressions are traversed in the parser
#[derive(Debug, Clone, Copy, PartialEq, Eq, Structural)]
pub enum Prec {
    /// lowest precedence, this is the default
    Lowest,
    /// `a = 10`
    Assign,
    /// `and` or `or`, lower precedence than equality
    AndOr,
    /// `==` or `!=`
    Eq,
    /// `>` or `<`
    Cmp,
    /// `+`
    Sum,
    /// `*` or `/`
    Product,
    /// `-a`, `!a` or `&a`
    Unary,
    /// `func()`
    Call,
    /// `Point { x : 10, y : 5 }`
    Construct,
    /// `list[0]`
    Index,
    /// `mod.field`
    Chain,
}

/// The place of a precedence in the order from lowest to highest.
pub open spec fn prec_rank(p: Prec) -> int {
    match p {
        Prec::Lowest => 0,
        Prec::Assign => 1,
        Prec::AndOr => 2,
        Prec::Eq => 3,
        Prec::Cmp => 4,
        Prec::Sum => 5,
        Prec::Product => 6,
        Prec::Unary => 7,
        Prec::Call => 8,
        Prec::Construct => 9,
        Prec::Index => 10,
        Prec::Chain => 11,
    }
}

/// The precedence with which a token of `kind` binds.
pub open spec fn prec_of(kind: TokenKind) -> Prec {
    match kind {
        TokenKind::Add | TokenKind::Sub => Prec::Sum,
        TokenKind::Assign => Prec::Assign,
        TokenKind::Eq | TokenKind::Ne => Prec::Eq,
        TokenKind::LParen => Prec::Call,
        TokenKind::LSquirly => Prec::Construct,
        TokenKind::LBracket => Prec::Index,
        TokenKind::LAngle | TokenKind::RAngle => Prec::Cmp,
        TokenKind::Asterisk | TokenKind::Slash => Prec::Product,
        TokenKind::And | TokenKind::Or => Prec::AndOr,
        TokenKind::Dot => Prec::Chain,
        TokenKind::Bang | TokenKind::Ampersand => Prec::Unary,
        _ => Prec::Lowest,
    }
}

impl Default for Prec {
    fn default() -> (r: Self)
        ensures
            r == Prec::Lowest,
    {
        Prec::Lowest
    }
}

impl Prec {
    /// The place of the precedence in the order from lowest to highest.
    pub fn rank(&self) -> (r: u8)
        ensures
            r == prec_rank(*self),
    {
        match self {
            Prec::Lowest => 0,
            Prec::Assign => 1,
            Prec::AndOr => 2,
            Prec::Eq => 3,
            Prec::Cmp => 4,
            Prec::Sum => 5,
            Prec::Product => 6,
            Prec::Unary => 7,
            Prec::Call => 8,
            Prec::Construct => 9,
            Prec::Index => 10,
            Prec::Chain => 11,
        }
    }

    /// Whether this precedence binds less tightly than `other`.
    pub fn lt(&self, other: &Prec) -> (r: bool)
        ensures
            r == (prec_rank(*self) < prec_rank(*other)),
    {
        self.rank() < other.rank()
    }
}

impl<'a> From<&'a Token> for Prec {
    fn from(token: &'a Token) -> (r: Self) {
        match token.kind {
            TokenKind::Add | TokenKind::Sub => Self::Sum,
            TokenKind::Assign => Self::Assign,
            TokenKind::Eq | TokenKind::Ne => Self::Eq,
            TokenKind::LParen => Self::Call,
            TokenKind::LSquirly => Self::Construct,
            TokenKind::LBracket => Self::Index,
            TokenKind::LAngle | TokenKind::RAngle => Self::Cmp,
            TokenKind::Asterisk | TokenKind::Slash => Self::Product,
            TokenKind::And | TokenKind::Or => Self::AndOr,
            TokenKind::Dot => Self::Chain,
            TokenKind::Bang | TokenKind::Ampersand => Self::Unary,
            _ => Self::Lowest,
        }
    }
}

impl<'a> vstd::std_specs::convert::FromSpecImpl<&'a Token> for Prec {
    open spec fn obeys_from_spec() -> bool {
        true
    }

    open spec fn from_spec(token: &'a Token) -> Prec {
        prec_of(token.kind)
    }
}

/// The precedences in the order of how tightly they bind, from the loosest: `and` and `or`
/// bind more loosely than `==` and `!=`, which bind more loosely than `<` and `>`, then `+` and
/// `-`, then `*` and `/`, then the prefix operators, calls, constructors, indexing and member
/// access; an assignment binds more loosely than all of them.
pub proof fn lemma_prec_order()
    ensures
        prec_rank(Prec::Lowest) < prec_rank(Prec::Assign),
        prec_rank(Prec::Assign) < prec_rank(Prec::AndOr),
        prec_rank(Prec::AndOr) < prec_rank(Prec::Eq),
        prec_rank(Prec::Eq) < prec_rank(Prec::Cmp),
        prec_rank(Prec::Cmp) < prec_rank(Prec::Sum),
        prec_rank(Prec::Sum) < prec_rank(Prec::Product),
        prec_rank(Prec::Product) < prec_rank(Prec::Unary),
        prec_rank(Prec::Unary) < prec_rank(Prec::Call),
        prec_rank(Prec::Call) < prec_rank(Prec::Construct),
        prec_rank(Prec::Construct) < prec_rank(Prec::Index),
        prec_rank(Prec::Index) < prec_rank(Prec::Chain),
{
}

} // verus!
