//! The node ids of a syntax tree, in the order in which the parser hands them out.
use vstd::prelude::*;

use crate::ast::{
    AssocItem, Block, Expr, Fn, FnKind, Ident, Item, Let, Module, Name, Stmnt, Ty, TyKind,
};

verus! {

/// `s` increases strictly and lies in `lo .. hi`.
pub open spec fn ids_in(s: Seq<u32>, lo: int, hi: int) -> bool {
    &&& forall|i: int| 0 <= i < s.len() ==> lo <= #[trigger] s[i] < hi
    &&& forall|i: int, j: int| 0 <= i < j < s.len() ==> s[i] < s[j]
}

/// `whole` is `prefix` followed by ids that increase strictly within `lo .. hi`.
pub open spec fn extends(whole: Seq<u32>, prefix: Seq<u32>, lo: int, hi: int) -> bool {
    &&& prefix.len() <= whole.len()
    &&& whole.take(prefix.len() as int) == prefix
    &&& ids_in(whole.skip(prefix.len() as int), lo, hi)
}

pub open spec fn ident_ids(i: Ident) -> Seq<u32> {
    seq![i.id.0]
}

pub open spec fn ty_ids(t: Ty) -> Seq<u32>
    decreases t,
{
    match t.kind {
        TyKind::Var(i) => seq![i.id.0, t.id.0],
        TyKind::List { inner, .. } => ty_ids(*inner).push(t.id.0),
        TyKind::Fn { params, returns: ret, .. } => tys_ids(params@) + ty_ids(*ret) + seq![t.id.0],
        _ => seq![t.id.0],
    }
}

pub open spec fn tys_ids(s: Seq<Ty>) -> Seq<u32>
    decreases s,
{
    if s.len() == 0 {
        Seq::empty()
    } else {
        tys_ids(s.drop_last()) + ty_ids(s.last())
    }
}

pub open spec fn expr_ids(e: Expr) -> Seq<u32>
    decreases e,
{
    match e {
        Expr::Ident(i) => seq![i.id.0],
        Expr::Literal(l) => seq![l.id.0],
        Expr::Block(b) => block_ids(b),
        Expr::BinOp(b) => expr_ids(*b.lhs) + expr_ids(*b.rhs) + seq![b.id.0],
        Expr::Unary(u) => expr_ids(*u.rhs).push(u.id.0),
        Expr::Call(c) => expr_ids(*c.func) + exprs_ids(c.params@) + seq![c.id.0],
        Expr::Index(i) => expr_ids(*i.expr) + expr_ids(*i.idx) + seq![i.id.0],
        Expr::IfElse(ie) => expr_ids(*ie.condition) + block_ids(ie.consequence) + (match ie.alternative {
            Some(alt) => block_ids(alt),
            None => Seq::empty(),
        }) + seq![ie.id.0],
        Expr::List(l) => exprs_ids(l.items@).push(l.id.0),
        Expr::Constructor(c) => seq![c.ident.id.0] + fields_ids(c.fields@) + seq![c.id.0],
        Expr::MemberAccess(a) => expr_ids(*a.lhs).push(a.id.0),
        Expr::Ref(inner) => expr_ids(*inner),
        Expr::Assign(a) => expr_ids(*a.lhs) + seq![a.id.0] + expr_ids(*a.rhs),
        Expr::Break(b) => (match b.val {
            Some(v) => expr_ids(*v),
            None => Seq::empty(),
        }).push(b.id.0),
        Expr::Continue(c) => seq![c.id.0],
        Expr::While(w) => expr_ids(*w.condition) + block_ids(w.consequence) + seq![w.id.0],
    }
}

pub open spec fn exprs_ids(s: Seq<Expr>) -> Seq<u32>
    decreases s,
{
    if s.len() == 0 {
        Seq::empty()
    } else {
        exprs_ids(s.drop_last()) + expr_ids(s.last())
    }
}

pub open spec fn fields_ids(s: Seq<(Name, Expr)>) -> Seq<u32>
    decreases s,
{
    if s.len() == 0 {
        Seq::empty()
    } else {
        fields_ids(s.drop_last()) + expr_ids(s.last().1)
    }
}

pub open spec fn block_ids(b: Block) -> Seq<u32>
    decreases b,
{
    stmnts_ids(b.nodes@).push(b.id.0)
}

pub open spec fn stmnts_ids(s: Seq<Stmnt>) -> Seq<u32>
    decreases s,
{
    if s.len() == 0 {
        Seq::empty()
    } else {
        stmnts_ids(s.drop_last()) + stmnt_ids(s.last())
    }
}

pub open spec fn opt_ty_ids(t: Option<Ty>) -> Seq<u32> {
    match t {
        Some(t) => ty_ids(t),
        None => Seq::empty(),
    }
}

pub open spec fn opt_block_ids(b: Option<Block>) -> Seq<u32> {
    match b {
        Some(b) => block_ids(b),
        None => Seq::empty(),
    }
}

pub open spec fn let_ids(l: Let) -> Seq<u32>
    decreases l,
{
    seq![l.ident.id.0] + (match l.ty {
        Some(t) => ty_ids(t),
        None => Seq::empty(),
    }) + expr_ids(l.val)
}

pub open spec fn stmnt_ids(s: Stmnt) -> Seq<u32>
    decreases s,
{
    match s {
        Stmnt::Let(l) => let_ids(l),
        Stmnt::Ret(r) => expr_ids(r.val),
        Stmnt::Expr(e) => expr_ids(e),
    }
}

pub open spec fn local_params_ids(s: Seq<(Ident, Ty)>) -> Seq<u32>
    decreases s,
{
    if s.len() == 0 {
        Seq::empty()
    } else {
        local_params_ids(s.drop_last()) + seq![s.last().0.id.0] + ty_ids(s.last().1)
    }
}

pub open spec fn named_tys_ids(s: Seq<(Name, Ty)>) -> Seq<u32>
    decreases s,
{
    if s.len() == 0 {
        Seq::empty()
    } else {
        named_tys_ids(s.drop_last()) + ty_ids(s.last().1)
    }
}

pub open spec fn fn_ids(f: Fn) -> Seq<u32> {
    seq![f.ident.id.0] + match f.kind {
        FnKind::Local { params, body } => local_params_ids(params@) + ty_ids(f.return_ty)
            + block_ids(body),
        FnKind::Extern { params, .. } => named_tys_ids(params@) + ty_ids(f.return_ty),
    }
}

pub open spec fn assoc_ids(s: Seq<AssocItem>) -> Seq<u32>
    decreases s,
{
    if s.len() == 0 {
        Seq::empty()
    } else {
        assoc_ids(s.drop_last()) + match s.last() {
            AssocItem::Fn(f) => fn_ids(f),
        }
    }
}

pub open spec fn item_ids(i: Item) -> Seq<u32> {
    match i {
        Item::Use(_) => Seq::empty(),
        Item::Fn(f) => fn_ids(f),
        Item::StructDef(d) => seq![d.ident.id.0] + named_tys_ids(d.fields@),
        Item::Impl(imp) => seq![imp.ident.id.0] + assoc_ids(imp.items@),
    }
}

pub open spec fn items_ids(s: Seq<Item>) -> Seq<u32>
    decreases s,
{
    if s.len() == 0 {
        Seq::empty()
    } else {
        items_ids(s.drop_last()) + item_ids(s.last())
    }
}

/// The ids of all nodes of a module.
pub open spec fn module_ids(m: Module) -> Seq<u32> {
    items_ids(m.items@)
}

/// Two runs of ids, the second handed out after the first, make one run.
pub proof fn lemma_ids_concat(a: Seq<u32>, b: Seq<u32>, lo: int, mid: int, hi: int)
    requires
        ids_in(a, lo, mid),
        ids_in(b, mid, hi),
        lo <= mid <= hi,
    ensures
        ids_in(a + b, lo, hi),
{
    assert forall|i: int, j: int| 0 <= i < j < (a + b).len() implies (a + b)[i] < (a + b)[j] by {
        if j < a.len() {
        } else if i >= a.len() {
            assert((a + b)[i] == b[i - a.len()]);
            assert((a + b)[j] == b[j - a.len()]);
        } else {
            assert((a + b)[i] == a[i]);
            assert((a + b)[j] == b[j - a.len()]);
        }
    }
    assert forall|i: int| 0 <= i < (a + b).len() implies lo <= #[trigger] (a + b)[i] < hi by {
        if i < a.len() {
            assert((a + b)[i] == a[i]);
            assert(lo <= a[i] < mid);
        } else {
            let k = i - a.len();
            assert((a + b)[i] == b[k]);
            assert(mid <= b[k] < hi);
        }
    }
}

/// A run of ids still lies in any wider range.
pub proof fn lemma_ids_widen(a: Seq<u32>, lo: int, hi: int, lo2: int, hi2: int)
    requires
        ids_in(a, lo, hi),
        lo2 <= lo,
        hi <= hi2,
    ensures
        ids_in(a, lo2, hi2),
{
}

/// A whole that extends a run handed out before it is itself a run.
pub proof fn lemma_ids_extends(whole: Seq<u32>, prefix: Seq<u32>, lo: int, mid: int, hi: int)
    requires
        ids_in(prefix, lo, mid),
        extends(whole, prefix, mid, hi),
        lo <= mid <= hi,
    ensures
        ids_in(whole, lo, hi),
{
    let rest = whole.skip(prefix.len() as int);
    assert(whole =~= prefix + rest);
    lemma_ids_concat(prefix, rest, lo, mid, hi);
}

/// No two nodes of a parsed module share an id: the parser hands out the ids of a module's
/// nodes in increasing order, so they are pairwise distinct.
pub proof fn lemma_parsed_ids_distinct(m: Module, lo: int, hi: int)
    requires
        ids_in(module_ids(m), lo, hi),
    ensures
        module_ids(m).no_duplicates(),
{
    let s = module_ids(m);
    assert forall|i: int, j: int| 0 <= i < s.len() && 0 <= j < s.len() && i != j implies s[i]
        != s[j] by {
        if i < j {
        } else {
        }
    }
}

} // verus!
