//! Operators are printed as they are written: the printed text of a binary operator is the
//! spelling of the token it is parsed from.
use vstd::prelude::*;

use crate::ast::fmt::binop_text;
use crate::ast::BinOpKind;
use crate::lexer::spelling;
use crate::parser::{binop_of, binop_token, ceiling, grouped, op_rank};
use crate::parser::prec::{lemma_prec_order, prec_of, prec_rank};
use crate::lexer::token::TokenKind;
use crate::ast::Expr;

verus! {

/// The characters of ASCII bytes.
pub open spec fn ascii_chars(b: Seq<u8>) -> Seq<char> {
    b.map_values(|x: u8| x as char)
}

/// Each binary operator is parsed from exactly one kind of token, and the syntax tree prints
/// it as that token is spelled in the source, so that printing gives back what was parsed.
pub proof fn lemma_binop_printed_as_written(k: BinOpKind)
    ensures
        binop_of(binop_token(k)) == Some(k),
        spelling(binop_token(k)) is Some,
        binop_text(k) == ascii_chars(spelling(binop_token(k))->0),
{
    reveal_strlit("==");
    reveal_strlit("!=");
    reveal_strlit("+");
    reveal_strlit("-");
    reveal_strlit("*");
    reveal_strlit("/");
    reveal_strlit("<");
    reveal_strlit(">");
    reveal_strlit("and");
    reveal_strlit("or");
    assert(binop_text(k) =~= ascii_chars(spelling(binop_token(k))->0));
}

/// Different binary operators are printed differently.
pub proof fn lemma_binop_text_distinct(a: BinOpKind, b: BinOpKind)
    requires
        a != b,
    ensures
        binop_text(a) != binop_text(b),
{
    lemma_binop_printed_as_written(a);
    lemma_binop_printed_as_written(b);
    let ta = binop_text(a);
    let tb = binop_text(b);
    if ta == tb {
        assert(ta.len() == tb.len());
        assert(ta[0] == tb[0]);
        if ta.len() > 1 {
            assert(ta[1] == tb[1]);
        }
    }
}

/// How tightly a binary operator binds, as the language defines it: `and` and `or` most
/// loosely, then `==` and `!=`, then `<` and `>`, then `+` and `-`, and `*` and `/` most tightly.
pub open spec fn binding_level(k: BinOpKind) -> int {
    match k {
        BinOpKind::And | BinOpKind::Or => 0,
        BinOpKind::Eq | BinOpKind::Ne => 1,
        BinOpKind::Lt | BinOpKind::Gt => 2,
        BinOpKind::Add | BinOpKind::Sub => 3,
        BinOpKind::Mul | BinOpKind::Div => 4,
    }
}

/// The parser ranks the binary operators in the order of their binding levels.
pub proof fn lemma_op_rank_follows_binding_level(a: BinOpKind, b: BinOpKind)
    ensures
        binding_level(a) < binding_level(b) <==> op_rank(a) < op_rank(b),
        binding_level(a) == binding_level(b) <==> op_rank(a) == op_rank(b),
{
    lemma_prec_order();
}

/// In an expression read by operator precedence, no operand of a binary operator is a binary
/// operation that binds more loosely: a left operand binds at least as tightly (operators of
/// one level group to the left), a right operand strictly more tightly. So `a == 1 and b == 2`
/// can only be read as `(a == 1) and (b == 2)`, and `1 + 6 / 2` only as `1 + (6 / 2)`.
pub proof fn lemma_operands_bind_tighter(e: Expr, p: int)
    requires
        grouped(e, p),
    ensures
        e matches Expr::BinOp(b) ==> {
            &&& (*b.lhs matches Expr::BinOp(l) ==> binding_level(l.op.kind) >= binding_level(b.op.kind))
            &&& (*b.rhs matches Expr::BinOp(r) ==> binding_level(r.op.kind) > binding_level(b.op.kind))
        },
{
    if let Expr::BinOp(b) = e {
        if let Expr::BinOp(l) = *b.lhs {
            lemma_op_rank_follows_binding_level(l.op.kind, b.op.kind);
            assert(ceiling(*b.lhs) == op_rank(l.op.kind));
        }
        if let Expr::BinOp(r) = *b.rhs {
            lemma_op_rank_follows_binding_level(r.op.kind, b.op.kind);
            assert(grouped(*b.rhs, op_rank(b.op.kind)));
        }
    }
}

/// A binary operator token binds, when the parser meets it, with the precedence of the
/// operator it is read as; so `/` binds like `*`, and `!=` like `==`.
pub proof fn lemma_token_binds_as_its_operator(t: TokenKind)
    ensures
        binop_of(t) matches Some(k) ==> prec_rank(prec_of(t)) == op_rank(k),
{
}

} // verus!
