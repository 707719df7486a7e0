//! How deep the printing of a syntax tree goes, computed so that a caller can test it before
//! printing.
use vstd::prelude::*;

use crate::ast::fmt::{
    assoc_nest, block_nest, expr_nest, exprs_nest, fields_nest, fn_nest, item_nest, items_nest,
    local_params_nest, module_text, named_tys_nest, nat_max, stmnt_nest, stmnts_nest, ty_nest,
    tys_nest, DisplayModule, line_starts_of,
};
use crate::ast::{AssocItem, Block, Expr, Fn, FnKind, Ident, Item, Name, Stmnt, Ty, TyKind};
use vstd::string::StringSliceAdditionalSpecFns;

verus! {

/// `n`, or the largest `usize` where `n` is larger.
pub open spec fn capped(n: nat) -> usize {
    if n <= usize::MAX {
        n as usize
    } else {
        usize::MAX
    }
}

pub open spec fn opt_block_nest(o: Option<Block>) -> nat {
    match o {
        Some(b) => block_nest(b),
        None => 0,
    }
}

pub open spec fn opt_expr_nest(o: Option<Box<Expr>>) -> nat {
    match o {
        Some(v) => expr_nest(*v),
        None => 0,
    }
}

pub open spec fn opt_ty_nest(o: Option<Ty>) -> nat {
    match o {
        Some(t) => ty_nest(t),
        None => 0,
    }
}

pub open spec fn fn_kind_nest(k: FnKind) -> nat {
    match k {
        FnKind::Local { params, body } => nat_max(local_params_nest(params@), block_nest(body)),
        FnKind::Extern { params, .. } => named_tys_nest(params@),
    }
}

pub open spec fn assoc_item_nest(a: AssocItem) -> nat {
    match a {
        AssocItem::Fn(f) => fn_nest(f),
    }
}

/// Three levels more, capped.
fn plus3(x: usize, Ghost(n): Ghost<nat>) -> (r: usize)
    requires
        x == capped(n),
    ensures
        r == capped(3 + n),
{
    if x > usize::MAX - 3 {
        usize::MAX
    } else {
        x + 3
    }
}

/// The larger of two capped depths.
fn larger(x: usize, y: usize, Ghost(a): Ghost<nat>, Ghost(b): Ghost<nat>) -> (r: usize)
    requires
        x == capped(a),
        y == capped(b),
    ensures
        r == capped(nat_max(a, b)),
{
    if x >= y {
        x
    } else {
        y
    }
}

fn ty_depth(t: &Ty) -> (r: usize)
    ensures
        r == capped(ty_nest(*t)),
    decreases t,
{
    match &t.kind {
        TyKind::List { inner, .. } => plus3(ty_depth(inner), Ghost(ty_nest(**inner))),
        TyKind::Fn { params, returns: ret, .. } => {
            let p = tys_depth(params);
            let q = ty_depth(ret);
            plus3(
                larger(p, q, Ghost(tys_nest(params@)), Ghost(ty_nest(**ret))),
                Ghost(nat_max(tys_nest(params@), ty_nest(**ret))),
            )
        },
        _ => 3,
    }
}

fn tys_depth(s: &Vec<Ty>) -> (r: usize)
    ensures
        r == capped(tys_nest(s@)),
    decreases s,
{
    let mut acc: usize = 0;
    let mut i: usize = s.len();
    proof {
        assert(s@.skip(s@.len() as int) =~= Seq::<Ty>::empty());
    }
    while i > 0
        invariant
            i <= s@.len(),
            acc == capped(tys_nest(s@.skip(i as int))),
        decreases i,
    {
        i -= 1;
        proof {
            assert(s@.skip(i as int).drop_first() =~= s@.skip(i + 1));
            assert(s@.skip(i as int)[0] == s@[i as int]);
        }
        let d = ty_depth(&s[i]);
        acc = larger(d, acc, Ghost(ty_nest(s@[i as int])), Ghost(tys_nest(s@.skip(i + 1))));
    }
    proof {
        assert(s@.skip(0) =~= s@);
    }
    acc
}

fn expr_depth(e: &Expr) -> (r: usize)
    ensures
        r == capped(expr_nest(*e)),
    decreases e,
{
    match e {
        Expr::Ident(_) | Expr::Literal(_) | Expr::Continue(_) => 3,
        Expr::Block(b) => block_depth(b),
        Expr::BinOp(b) => plus3(
            larger(
                expr_depth(&b.lhs),
                expr_depth(&b.rhs),
                Ghost(expr_nest(*b.lhs)),
                Ghost(expr_nest(*b.rhs)),
            ),
            Ghost(nat_max(expr_nest(*b.lhs), expr_nest(*b.rhs))),
        ),
        Expr::Unary(u) => plus3(expr_depth(&u.rhs), Ghost(expr_nest(*u.rhs))),
        Expr::Call(c) => plus3(
            larger(
                expr_depth(&c.func),
                exprs_depth(&c.params),
                Ghost(expr_nest(*c.func)),
                Ghost(exprs_nest(c.params@)),
            ),
            Ghost(nat_max(expr_nest(*c.func), exprs_nest(c.params@))),
        ),
        Expr::Index(i) => plus3(
            larger(
                expr_depth(&i.expr),
                expr_depth(&i.idx),
                Ghost(expr_nest(*i.expr)),
                Ghost(expr_nest(*i.idx)),
            ),
            Ghost(nat_max(expr_nest(*i.expr), expr_nest(*i.idx))),
        ),
        Expr::IfElse(ie) => {
            let ghost alt_nest: nat = opt_block_nest(ie.alternative);
            let alt = match &ie.alternative {
                Some(alt) => block_depth(alt),
                None => 0,
            };
            let branches = larger(
                block_depth(&ie.consequence),
                alt,
                Ghost(block_nest(ie.consequence)),
                Ghost(alt_nest),
            );
            plus3(
                larger(
                    expr_depth(&ie.condition),
                    branches,
                    Ghost(expr_nest(*ie.condition)),
                    Ghost(nat_max(block_nest(ie.consequence), alt_nest)),
                ),
                Ghost(
                    nat_max(expr_nest(*ie.condition), nat_max(block_nest(ie.consequence), alt_nest)),
                ),
            )
        },
        Expr::List(l) => plus3(exprs_depth(&l.items), Ghost(exprs_nest(l.items@))),
        Expr::Constructor(c) => plus3(fields_depth(&c.fields), Ghost(fields_nest(c.fields@))),
        Expr::MemberAccess(a) => plus3(expr_depth(&a.lhs), Ghost(expr_nest(*a.lhs))),
        Expr::Ref(inner) => plus3(expr_depth(inner), Ghost(expr_nest(**inner))),
        Expr::Assign(a) => plus3(
            larger(
                expr_depth(&a.lhs),
                expr_depth(&a.rhs),
                Ghost(expr_nest(*a.lhs)),
                Ghost(expr_nest(*a.rhs)),
            ),
            Ghost(nat_max(expr_nest(*a.lhs), expr_nest(*a.rhs))),
        ),
        Expr::Break(b) => {
            let ghost val_nest: nat = opt_expr_nest(b.val);
            let d = match &b.val {
                Some(v) => expr_depth(v),
                None => 0,
            };
            plus3(d, Ghost(val_nest))
        },
        Expr::While(w) => plus3(
            larger(
                expr_depth(&w.condition),
                block_depth(&w.consequence),
                Ghost(expr_nest(*w.condition)),
                Ghost(block_nest(w.consequence)),
            ),
            Ghost(nat_max(expr_nest(*w.condition), block_nest(w.consequence))),
        ),
    }
}

fn exprs_depth(s: &Vec<Expr>) -> (r: usize)
    ensures
        r == capped(exprs_nest(s@)),
    decreases s,
{
    let mut acc: usize = 0;
    let mut i: usize = s.len();
    proof {
        assert(s@.skip(s@.len() as int) =~= Seq::<Expr>::empty());
    }
    while i > 0
        invariant
            i <= s@.len(),
            acc == capped(exprs_nest(s@.skip(i as int))),
        decreases i,
    {
        i -= 1;
        proof {
            assert(s@.skip(i as int).drop_first() =~= s@.skip(i + 1));
            assert(s@.skip(i as int)[0] == s@[i as int]);
        }
        let d = expr_depth(&s[i]);
        acc = larger(d, acc, Ghost(expr_nest(s@[i as int])), Ghost(exprs_nest(s@.skip(i + 1))));
    }
    proof {
        assert(s@.skip(0) =~= s@);
    }
    acc
}

fn fields_depth(s: &Vec<(Name, Expr)>) -> (r: usize)
    ensures
        r == capped(fields_nest(s@)),
    decreases s,
{
    let mut acc: usize = 0;
    let mut i: usize = s.len();
    proof {
        assert(s@.skip(s@.len() as int) =~= Seq::<(Name, Expr)>::empty());
    }
    while i > 0
        invariant
            i <= s@.len(),
            acc == capped(fields_nest(s@.skip(i as int))),
        decreases i,
    {
        i -= 1;
        proof {
            assert(s@.skip(i as int).drop_first() =~= s@.skip(i + 1));
            assert(s@.skip(i as int)[0] == s@[i as int]);
        }
        let d = expr_depth(&s[i].1);
        acc = larger(d, acc, Ghost(expr_nest(s@[i as int].1)), Ghost(fields_nest(s@.skip(i + 1))));
    }
    proof {
        assert(s@.skip(0) =~= s@);
    }
    acc
}

fn block_depth(b: &Block) -> (r: usize)
    ensures
        r == capped(block_nest(*b)),
    decreases b,
{
    plus3(stmnts_depth(&b.nodes), Ghost(stmnts_nest(b.nodes@)))
}

fn stmnts_depth(s: &Vec<Stmnt>) -> (r: usize)
    ensures
        r == capped(stmnts_nest(s@)),
    decreases s,
{
    let mut acc: usize = 0;
    let mut i: usize = s.len();
    proof {
        assert(s@.skip(s@.len() as int) =~= Seq::<Stmnt>::empty());
    }
    while i > 0
        invariant
            i <= s@.len(),
            acc == capped(stmnts_nest(s@.skip(i as int))),
        decreases i,
    {
        i -= 1;
        proof {
            assert(s@.skip(i as int).drop_first() =~= s@.skip(i + 1));
            assert(s@.skip(i as int)[0] == s@[i as int]);
        }
        let d = stmnt_depth(&s[i]);
        acc = larger(d, acc, Ghost(stmnt_nest(s@[i as int])), Ghost(stmnts_nest(s@.skip(i + 1))));
    }
    proof {
        assert(s@.skip(0) =~= s@);
    }
    acc
}

fn stmnt_depth(s: &Stmnt) -> (r: usize)
    ensures
        r == capped(stmnt_nest(*s)),
    decreases s,
{
    match s {
        Stmnt::Let(l) => {
            let ghost ty_n: nat = opt_ty_nest(l.ty);
            let t = match &l.ty {
                Some(t) => ty_depth(t),
                None => 0,
            };
            plus3(
                larger(t, expr_depth(&l.val), Ghost(ty_n), Ghost(expr_nest(l.val))),
                Ghost(nat_max(ty_n, expr_nest(l.val))),
            )
        },
        Stmnt::Ret(r) => plus3(expr_depth(&r.val), Ghost(expr_nest(r.val))),
        Stmnt::Expr(e) => expr_depth(e),
    }
}

fn local_params_depth(s: &Vec<(Ident, Ty)>) -> (r: usize)
    ensures
        r == capped(local_params_nest(s@)),
{
    let mut acc: usize = 0;
    let mut i: usize = s.len();
    proof {
        assert(s@.skip(s@.len() as int) =~= Seq::<(Ident, Ty)>::empty());
    }
    while i > 0
        invariant
            i <= s@.len(),
            acc == capped(local_params_nest(s@.skip(i as int))),
        decreases i,
    {
        i -= 1;
        proof {
            assert(s@.skip(i as int).drop_first() =~= s@.skip(i + 1));
            assert(s@.skip(i as int)[0] == s@[i as int]);
        }
        let d = ty_depth(&s[i].1);
        acc = larger(d, acc, Ghost(ty_nest(s@[i as int].1)), Ghost(local_params_nest(s@.skip(i + 1))));
    }
    proof {
        assert(s@.skip(0) =~= s@);
    }
    acc
}

fn named_tys_depth(s: &Vec<(Name, Ty)>) -> (r: usize)
    ensures
        r == capped(named_tys_nest(s@)),
{
    let mut acc: usize = 0;
    let mut i: usize = s.len();
    proof {
        assert(s@.skip(s@.len() as int) =~= Seq::<(Name, Ty)>::empty());
    }
    while i > 0
        invariant
            i <= s@.len(),
            acc == capped(named_tys_nest(s@.skip(i as int))),
        decreases i,
    {
        i -= 1;
        proof {
            assert(s@.skip(i as int).drop_first() =~= s@.skip(i + 1));
            assert(s@.skip(i as int)[0] == s@[i as int]);
        }
        let d = ty_depth(&s[i].1);
        acc = larger(d, acc, Ghost(ty_nest(s@[i as int].1)), Ghost(named_tys_nest(s@.skip(i + 1))));
    }
    proof {
        assert(s@.skip(0) =~= s@);
    }
    acc
}

fn fn_depth(f: &Fn) -> (r: usize)
    ensures
        r == capped(fn_nest(*f)),
{
    let ghost kind_n: nat = fn_kind_nest(f.kind);
    let k = match &f.kind {
        FnKind::Local { params, body } => larger(
            local_params_depth(params),
            block_depth(body),
            Ghost(local_params_nest(params@)),
            Ghost(block_nest(*body)),
        ),
        FnKind::Extern { params, .. } => named_tys_depth(params),
    };
    plus3(
        larger(ty_depth(&f.return_ty), k, Ghost(ty_nest(f.return_ty)), Ghost(kind_n)),
        Ghost(nat_max(ty_nest(f.return_ty), kind_n)),
    )
}

fn assoc_depth(s: &Vec<AssocItem>) -> (r: usize)
    ensures
        r == capped(assoc_nest(s@)),
{
    let mut acc: usize = 0;
    let mut i: usize = s.len();
    proof {
        assert(s@.skip(s@.len() as int) =~= Seq::<AssocItem>::empty());
    }
    while i > 0
        invariant
            i <= s@.len(),
            acc == capped(assoc_nest(s@.skip(i as int))),
        decreases i,
    {
        i -= 1;
        proof {
            assert(s@.skip(i as int).drop_first() =~= s@.skip(i + 1));
            assert(s@.skip(i as int)[0] == s@[i as int]);
        }
        let d = match &s[i] {
            AssocItem::Fn(f) => fn_depth(f),
        };
        let ghost n: nat = assoc_item_nest(s@[i as int]);
        acc = larger(d, acc, Ghost(n), Ghost(assoc_nest(s@.skip(i + 1))));
    }
    proof {
        assert(s@.skip(0) =~= s@);
    }
    acc
}

fn item_depth(item: &Item) -> (r: usize)
    ensures
        r == capped(item_nest(*item)),
{
    match item {
        Item::Use(_) => 3,
        Item::Fn(f) => fn_depth(f),
        Item::StructDef(s) => plus3(named_tys_depth(&s.fields), Ghost(named_tys_nest(s.fields@))),
        Item::Impl(imp) => plus3(assoc_depth(&imp.items), Ghost(assoc_nest(imp.items@))),
    }
}

fn items_depth(s: &Vec<Item>) -> (r: usize)
    ensures
        r == capped(items_nest(s@)),
{
    let mut acc: usize = 0;
    let mut i: usize = s.len();
    proof {
        assert(s@.skip(s@.len() as int) =~= Seq::<Item>::empty());
    }
    while i > 0
        invariant
            i <= s@.len(),
            acc == capped(items_nest(s@.skip(i as int))),
        decreases i,
    {
        i -= 1;
        proof {
            assert(s@.skip(i as int).drop_first() =~= s@.skip(i + 1));
            assert(s@.skip(i as int)[0] == s@[i as int]);
        }
        let d = item_depth(&s[i]);
        acc = larger(d, acc, Ghost(item_nest(s@[i as int])), Ghost(items_nest(s@.skip(i + 1))));
    }
    proof {
        assert(s@.skip(0) =~= s@);
    }
    acc
}

impl<'a> DisplayModule<'a> {
    /// The printed module, where its nesting is shallow enough for the indentation to be
    /// counted; `None` where it is not.
    pub fn checked_to_string(&self) -> (r: Option<String>)
        ensures
            match r {
                Some(text) => 1 + items_nest(self.module.items@) <= usize::MAX && text@ == module_text(
                    line_starts_of(self.source.spec_bytes()),
                    *self.module,
                ),
                None => 1 + items_nest(self.module.items@) > usize::MAX,
            },
    {
        let depth = items_depth(&self.module.items);
        if depth >= usize::MAX {
            None
        } else {
            Some(self.to_string())
        }
    }
}

} // verus!
