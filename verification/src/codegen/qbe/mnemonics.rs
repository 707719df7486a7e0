//! What the names of QBE's comparisons say: the relation each one tests.
use vstd::prelude::*;

use crate::codegen::qbe::fmt::cmp_text;
use crate::codegen::qbe::Cmp;

verus! {

/// The name of a comparison, from which of "less", "equal" and "greater" it holds for:
/// `lt`, `le`, `gt`, `ge`, `eq` or `ne`.
pub open spec fn relation_name(less: bool, equal: bool, greater: bool) -> Seq<char> {
    if less && !equal && !greater {
        seq!['l', 't']
    } else if less && equal && !greater {
        seq!['l', 'e']
    } else if !less && !equal && greater {
        seq!['g', 't']
    } else if !less && equal && greater {
        seq!['g', 'e']
    } else if !less && equal && !greater {
        seq!['e', 'q']
    } else {
        seq!['n', 'e']
    }
}

/// What an integer comparison tests of its operands `a` and `b`, as the instruction's
/// documentation says; the two comparisons about NaN have no integer meaning.
pub open spec fn cmp_holds(c: Cmp, a: int, b: int) -> bool {
    match c {
        Cmp::Slt | Cmp::Ult => a < b,
        Cmp::Sle | Cmp::Ule => a <= b,
        Cmp::Sgt | Cmp::Ugt => a > b,
        Cmp::Sge | Cmp::Uge => a >= b,
        Cmp::Eq => a == b,
        Cmp::Ne => a != b,
        Cmp::O | Cmp::Uo => false,
    }
}

/// Whether a comparison reads its operands as signed or unsigned numbers, where it tells
/// them apart: `s`, `u`, or nothing.
pub open spec fn signedness_mark(c: Cmp) -> Seq<char> {
    match c {
        Cmp::Slt | Cmp::Sle | Cmp::Sgt | Cmp::Sge => seq!['s'],
        Cmp::Ult | Cmp::Ule | Cmp::Ugt | Cmp::Uge => seq!['u'],
        _ => Seq::empty(),
    }
}

/// The name QBE gives an integer comparison is its signedness mark followed by the name of
/// the relation it tests: what it holds for when the first operand is less than, equal to or
/// greater than the second.
pub proof fn lemma_cmp_text_names_relation(c: Cmp)
    requires
        c != Cmp::O,
        c != Cmp::Uo,
    ensures
        cmp_text(c) == signedness_mark(c) + relation_name(
            cmp_holds(c, 0, 1),
            cmp_holds(c, 1, 1),
            cmp_holds(c, 1, 0),
        ),
{
    reveal_strlit("slt");
    reveal_strlit("sle");
    reveal_strlit("sgt");
    reveal_strlit("sge");
    reveal_strlit("ult");
    reveal_strlit("ule");
    reveal_strlit("ugt");
    reveal_strlit("uge");
    reveal_strlit("eq");
    reveal_strlit("ne");
    assert(cmp_text(c) =~= signedness_mark(c) + relation_name(
        cmp_holds(c, 0, 1),
        cmp_holds(c, 1, 1),
        cmp_holds(c, 1, 0),
    ));
}

/// The NaN tests are named `o` (ordered) and `uo` (unordered).
pub proof fn lemma_cmp_text_nan_tests()
    ensures
        cmp_text(Cmp::O) == seq!['o'],
        cmp_text(Cmp::Uo) == seq!['u', 'o'],
{
    reveal_strlit("o");
    reveal_strlit("uo");
    assert(cmp_text(Cmp::O) =~= seq!['o']);
    assert(cmp_text(Cmp::Uo) =~= seq!['u', 'o']);
}

/// Different comparisons are printed differently, so the text of a comparison tells which it is.
pub proof fn lemma_cmp_text_distinct(a: Cmp, b: Cmp)
    requires
        a != b,
    ensures
        cmp_text(a) != cmp_text(b),
{
    if a != Cmp::O && a != Cmp::Uo {
        lemma_cmp_text_names_relation(a);
    } else {
        lemma_cmp_text_nan_tests();
    }
    if b != Cmp::O && b != Cmp::Uo {
        lemma_cmp_text_names_relation(b);
    } else {
        lemma_cmp_text_nan_tests();
    }
    let ta = cmp_text(a);
    let tb = cmp_text(b);
    if ta == tb {
        assert(ta.len() == tb.len());
        assert(ta[0] == tb[0]);
        assert(ta[ta.len() - 1] == tb[tb.len() - 1]);
        if ta.len() == 3 {
            assert(ta[1] == tb[1]);
        }
    }
}

} // verus!
