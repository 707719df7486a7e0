//! What the names of the mid-level operators say: a comparison is named by the relation it
//! tests, and the other operators by the QBE instruction that computes them.
use vstd::prelude::*;

use crate::ast::{BinOpKind, UnaryOpKind};
use crate::codegen::qbe::fmt::{binary_text, instr_text, unary_text};
use crate::codegen::qbe::mnemonics::relation_name;
use crate::codegen::qbe::{Instruction, Operand};
use crate::mir::fmt::{bin_op_name, unary_op_name};

verus! {

/// What a comparison operator of the language tests of its operands `a` and `b`.
pub open spec fn compares(op: BinOpKind, a: int, b: int) -> bool {
    match op {
        BinOpKind::Eq => a == b,
        BinOpKind::Ne => a != b,
        BinOpKind::Lt => a < b,
        BinOpKind::Gt => a > b,
        _ => false,
    }
}

/// Whether `op` compares its operands.
pub open spec fn is_comparison(op: BinOpKind) -> bool {
    op == BinOpKind::Eq || op == BinOpKind::Ne || op == BinOpKind::Lt || op == BinOpKind::Gt
}

/// The QBE instruction that computes an operator that is no comparison.
pub open spec fn computed_by(op: BinOpKind, lhs: Operand, rhs: Operand) -> Instruction {
    match op {
        BinOpKind::Add => Instruction::Add(lhs, rhs),
        BinOpKind::Sub => Instruction::Sub(lhs, rhs),
        BinOpKind::Mul => Instruction::Mul(lhs, rhs),
        BinOpKind::Div => Instruction::Div(lhs, rhs),
        BinOpKind::And => Instruction::And(lhs, rhs),
        _ => Instruction::Or(lhs, rhs),
    }
}

/// A comparison is named by the relation it tests: what it holds for when the first operand
/// is less than, equal to or greater than the second.
pub proof fn lemma_comparison_names(op: BinOpKind)
    requires
        is_comparison(op),
    ensures
        bin_op_name(op) == relation_name(compares(op, 0, 1), compares(op, 1, 1), compares(op, 1, 0)),
{
    reveal_strlit("eq");
    reveal_strlit("ne");
    reveal_strlit("lt");
    reveal_strlit("gt");
    assert(bin_op_name(op) =~= relation_name(compares(op, 0, 1), compares(op, 1, 1), compares(op, 1, 0)));
}

/// Any other operator is named as the QBE instruction that computes it is printed.
pub proof fn lemma_operator_names(op: BinOpKind, lhs: Operand, rhs: Operand)
    requires
        !is_comparison(op),
    ensures
        instr_text(computed_by(op, lhs, rhs)) == binary_text(bin_op_name(op), lhs, rhs),
{
    reveal(instr_text);
}

/// Different operators get different names.
pub proof fn lemma_bin_op_names_distinct(a: BinOpKind, b: BinOpKind)
    requires
        a != b,
    ensures
        bin_op_name(a) != bin_op_name(b),
{
    reveal_strlit("eq");
    reveal_strlit("ne");
    reveal_strlit("add");
    reveal_strlit("sub");
    reveal_strlit("mul");
    reveal_strlit("div");
    reveal_strlit("lt");
    reveal_strlit("gt");
    reveal_strlit("and");
    reveal_strlit("or");
    let ta = bin_op_name(a);
    let tb = bin_op_name(b);
    if ta == tb {
        assert(ta.len() == tb.len());
        assert(ta[0] == tb[0]);
        assert(ta[1] == tb[1]);
    }
}

/// Negation is named as the QBE instruction that computes it is printed, and the two prefix
/// operators are named differently.
pub proof fn lemma_unary_op_names(val: Operand)
    ensures
        instr_text(Instruction::Neg(val)) == unary_text(unary_op_name(UnaryOpKind::Negate), val),
        unary_op_name(UnaryOpKind::Negate) != unary_op_name(UnaryOpKind::Not),
{
    reveal(instr_text);
    reveal_strlit("neg");
    reveal_strlit("not");
    assert(unary_op_name(UnaryOpKind::Negate)[2] != unary_op_name(UnaryOpKind::Not)[2]);
}

} // verus!
