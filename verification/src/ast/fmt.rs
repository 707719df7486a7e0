//! Printing a syntax tree as an indented s-expression with source positions.
//!
//! Each node is printed as `(kind [row:col - row:col] ...)`, where the positions are the
//! zero-based line and column (in bytes) of the start and the end of the node's span; children
//! follow on lines of their own, indented two spaces per level.
use vstd::prelude::*;

use crate::ast::{
    expr_span, Assign, AssocItem, BinOp, BinOpKind, Block, Break, Call, Expr, Fn, IfElse, Index,
    MemberAccess, Unary, While, FnKind, Ident, IntTy, Item, LiteralKind, Module, Name,
    Stmnt, Ty, TyKind, UIntTy, UnaryOpKind,
};
use crate::lexer::source::Span;
use vstd::string::StringSliceAdditionalSpecFns;
use crate::text::{decimal, decimal_digits, push_decimal_i128, push_decimal_u128, push_str};

verus! {

/// The name of a signed integer type.
pub open spec fn int_ty_name(t: IntTy) -> Seq<char> {
    match t {
        IntTy::I8 => "i8"@,
        IntTy::I16 => "i16"@,
        IntTy::I32 => "i32"@,
        IntTy::I64 => "i64"@,
    }
}

/// The name of an unsigned integer type.
pub open spec fn uint_ty_name(t: UIntTy) -> Seq<char> {
    match t {
        UIntTy::U8 => "u8"@,
        UIntTy::U16 => "u16"@,
        UIntTy::U32 => "u32"@,
        UIntTy::U64 => "u64"@,
    }
}

impl IntTy {
    pub fn as_str(&self) -> (r: &'static str)
        ensures
            r@ == int_ty_name(*self),
    {
        match self {
            IntTy::I8 => "i8",
            IntTy::I16 => "i16",
            IntTy::I32 => "i32",
            IntTy::I64 => "i64",
        }
    }
}

impl UIntTy {
    pub fn as_str(&self) -> (r: &'static str)
        ensures
            r@ == uint_ty_name(*self),
    {
        match self {
            UIntTy::U8 => "u8",
            UIntTy::U16 => "u16",
            UIntTy::U32 => "u32",
            UIntTy::U64 => "u64",
        }
    }
}

/// How a binary operator is printed.
pub open spec fn binop_text(op: BinOpKind) -> Seq<char> {
    match op {
        BinOpKind::Eq => "=="@,
        BinOpKind::Ne => "!="@,
        BinOpKind::Add => "+"@,
        BinOpKind::Sub => "-"@,
        BinOpKind::Mul => "*"@,
        BinOpKind::Div => "/"@,
        BinOpKind::Lt => "<"@,
        BinOpKind::Gt => ">"@,
        BinOpKind::And => "and"@,
        BinOpKind::Or => "or"@,
    }
}

/// How a unary operator is printed.
pub open spec fn unaryop_text(op: UnaryOpKind) -> Seq<char> {
    match op {
        UnaryOpKind::Negate => "-"@,
        UnaryOpKind::Not => "not"@,
    }
}

fn fmt_binop(op: &BinOpKind) -> (r: &'static str)
    ensures
        r@ == binop_text(*op),
{
    match op {
        BinOpKind::Eq => "==",
        BinOpKind::Ne => "!=",
        BinOpKind::Add => "+",
        BinOpKind::Sub => "-",
        BinOpKind::Mul => "*",
        BinOpKind::Div => "/",
        BinOpKind::Lt => "<",
        BinOpKind::Gt => ">",
        BinOpKind::And => "and",
        BinOpKind::Or => "or",
    }
}

fn fmt_unaryop(op: &UnaryOpKind) -> (r: &'static str)
    ensures
        r@ == unaryop_text(*op),
{
    match op {
        UnaryOpKind::Negate => "-",
        UnaryOpKind::Not => "not",
    }
}

// ---------------------------------------------------------------------------------------------
// Source positions
/// The offsets at which the lines of a text start: 0, and one past every newline byte.
pub open spec fn line_starts_of(bytes: Seq<u8>) -> Seq<usize>
    decreases bytes.len(),
{
    if bytes.len() == 0 {
        seq![0usize]
    } else {
        let prev = line_starts_of(bytes.drop_last());
        if bytes.last() == 10u8 {
            prev.push(bytes.len() as usize)
        } else {
            prev
        }
    }
}

/// Line starts: the first is 0 and they strictly increase.
pub open spec fn starts_wf(starts: Seq<usize>) -> bool {
    &&& starts.len() >= 1
    &&& starts[0] == 0
    &&& forall|i: int, j: int| 0 <= i < j < starts.len() ==> starts[i] < starts[j]
}

proof fn lemma_line_starts(bytes: Seq<u8>)
    requires
        bytes.len() <= usize::MAX,
    ensures
        starts_wf(line_starts_of(bytes)),
        forall|i: int|
            0 <= i < line_starts_of(bytes).len() ==> line_starts_of(bytes)[i] <= bytes.len(),
    decreases bytes.len(),
{
    if bytes.len() > 0 {
        lemma_line_starts(bytes.drop_last());
    }
}

/// How many of the line starts lie at or before `x`.
pub open spec fn count_le(starts: Seq<usize>, x: int) -> nat
    decreases starts.len(),
{
    if starts.len() == 0 {
        0
    } else {
        count_le(starts.drop_last(), x) + if starts.last() <= x {
            1nat
        } else {
            0nat
        }
    }
}

/// The zero-based line that offset `x` lies on.
pub open spec fn row_of(starts: Seq<usize>, x: int) -> nat {
    if count_le(starts, x) == 0 {
        0
    } else {
        (count_le(starts, x) - 1) as nat
    }
}

/// `row:col` for offset `x`.
pub open spec fn pos_text(starts: Seq<usize>, x: int) -> Seq<char> {
    decimal_digits(row_of(starts, x)) + ":"@ + decimal_digits((x - starts[row_of(starts, x) as int]) as nat)
}

/// `[row:col - row:col]` for the start and the end of a span.
#[verifier::opaque]
pub open spec fn span_text(starts: Seq<usize>, span: Span) -> Seq<char> {
    "["@ + pos_text(starts, span.offset as int) + " - "@ + pos_text(
        starts,
        span.offset + span.length,
    ) + "]"@
}

proof fn lemma_count_le_split(starts: Seq<usize>, x: int, k: int)
    requires
        0 <= k <= starts.len(),
        forall|j: int| 0 <= j < k ==> starts[j] <= x,
        forall|j: int| k <= j < starts.len() ==> starts[j] > x,
    ensures
        count_le(starts, x) == k,
    decreases starts.len(),
{
    if starts.len() > 0 {
        let prefix = starts.drop_last();
        if k == starts.len() {
            lemma_count_le_split(prefix, x, k - 1);
        } else {
            lemma_count_le_split(prefix, x, k);
        }
    }
}

/// How many newline bytes `bytes` holds.
pub open spec fn newlines(bytes: Seq<u8>) -> nat
    decreases bytes.len(),
{
    if bytes.len() == 0 {
        0
    } else {
        newlines(bytes.drop_last()) + if bytes.last() == 10u8 {
            1nat
        } else {
            0nat
        }
    }
}

/// Line start `j` lies just after the `j`-th newline, and there is one more line start than
/// there are newlines.
proof fn lemma_line_starts_after_newlines(bytes: Seq<u8>)
    requires
        bytes.len() <= usize::MAX,
    ensures
        line_starts_of(bytes).len() == newlines(bytes) + 1,
        forall|j: int|
            0 <= j < line_starts_of(bytes).len() ==> {
                &&& #[trigger] line_starts_of(bytes)[j] <= bytes.len()
                &&& newlines(bytes.take(line_starts_of(bytes)[j] as int)) == j
                &&& j > 0 ==> bytes[line_starts_of(bytes)[j] - 1] == 10u8
            },
    decreases bytes.len(),
{
    if bytes.len() == 0 {
        assert(bytes.take(0) =~= bytes);
    } else {
        let prev = bytes.drop_last();
        lemma_line_starts_after_newlines(prev);
        assert(bytes.take(bytes.len() as int) =~= bytes);
        assert(bytes.drop_last() =~= prev);
        let starts = line_starts_of(bytes);
        assert forall|j: int| 0 <= j < starts.len() implies {
            &&& #[trigger] starts[j] <= bytes.len()
            &&& newlines(bytes.take(starts[j] as int)) == j
            &&& j > 0 ==> bytes[starts[j] - 1] == 10u8
        } by {
            if j < line_starts_of(prev).len() {
                let at = line_starts_of(prev)[j] as int;
                assert(starts[j] == at);
                assert(bytes.take(at) =~= prev.take(at));
            }
        }
    }
}

/// In a strictly increasing sequence, the last of the starts counted at or before `x` lies at
/// or before `x`, and none of them lies past the end.
proof fn lemma_count_le_last(starts: Seq<usize>, x: int)
    requires
        forall|i: int, j: int| 0 <= i < j < starts.len() ==> starts[i] < starts[j],
    ensures
        count_le(starts, x) <= starts.len(),
        count_le(starts, x) > 0 ==> starts[count_le(starts, x) - 1] <= x,
    decreases starts.len(),
{
    if starts.len() > 0 {
        let prefix = starts.drop_last();
        lemma_count_le_last(prefix, x);
        if starts.last() <= x {
            lemma_count_le_split(prefix, x, prefix.len() as int);
        }
    }
}

/// The number of line starts at or before `x` is one more than the number of newlines before
/// `x`.
proof fn lemma_count_le_newlines(bytes: Seq<u8>, x: int)
    requires
        bytes.len() <= usize::MAX,
        0 <= x <= bytes.len(),
    ensures
        count_le(line_starts_of(bytes), x) == newlines(bytes.take(x)) + 1,
    decreases bytes.len(),
{
    if bytes.len() == 0 {
        assert(bytes.take(x) =~= bytes);
        assert(line_starts_of(bytes) == seq![0usize]);
        assert(seq![0usize].drop_last() =~= Seq::<usize>::empty());
        assert(count_le(Seq::<usize>::empty(), x) == 0);
        assert(count_le(line_starts_of(bytes), x) == 1);
    } else {
        let prev = bytes.drop_last();
        lemma_line_starts(prev);
        let ps = line_starts_of(prev);
        let here = bytes.len() as usize;
        assert(ps.push(here).drop_last() =~= ps);
        assert(ps.push(here).last() == here);
        if x < bytes.len() {
            lemma_count_le_newlines(prev, x);
            assert(bytes.take(x) =~= prev.take(x));
            assert(count_le(line_starts_of(bytes), x) == count_le(ps, x));
        } else {
            lemma_count_le_newlines(prev, x - 1);
            lemma_count_le_split(ps, x, ps.len() as int);
            lemma_count_le_split(ps, x - 1, ps.len() as int);
            assert(bytes.take(x) =~= bytes);
            assert(bytes.drop_last() =~= prev.take(x - 1));
            assert(count_le(ps, x) == ps.len());
            assert(count_le(ps, x - 1) == ps.len());
            assert(newlines(bytes) == newlines(prev) + if bytes.last() == 10u8 { 1nat } else { 0nat });
        }
    }
}

/// What the printed position of an offset means: its row is the number of newlines before
/// it, and its column counts the bytes since the start of its line, which is the start of the
/// text or the byte just after a newline, with no newline in between.
pub proof fn lemma_position_counts_lines(bytes: Seq<u8>, x: int)
    requires
        bytes.len() <= usize::MAX,
        0 <= x <= bytes.len(),
    ensures
        row_of(line_starts_of(bytes), x) == newlines(bytes.take(x)),
        ({
            let start = line_starts_of(bytes)[row_of(line_starts_of(bytes), x) as int] as int;
            &&& 0 <= start <= x
            &&& newlines(bytes.take(start)) == newlines(bytes.take(x))
            &&& (start == 0 || bytes[start - 1] == 10u8)
        }),
{
    let starts = line_starts_of(bytes);
    lemma_line_starts(bytes);
    lemma_line_starts_after_newlines(bytes);
    lemma_count_le_newlines(bytes, x);
    lemma_count_le_last(starts, x);
    let k = row_of(starts, x) as int;
    assert(0 <= k < starts.len());
    assert(starts[k] <= bytes.len());
}

/// Two spaces per level of depth.
#[verifier::opaque]
pub open spec fn indent_text(depth: nat) -> Seq<char>
    decreases depth,
{
    if depth == 0 {
        Seq::empty()
    } else {
        indent_text((depth - 1) as nat) + "  "@
    }
}

pub open spec fn nat_max(a: nat, b: nat) -> nat {
    if a >= b {
        a
    } else {
        b
    }
}

// ---------------------------------------------------------------------------------------------
// How deep the printing of a node goes: each node indents its children by at most three levels.
pub open spec fn ty_nest(t: Ty) -> nat
    decreases t,
{
    match t.kind {
        TyKind::List { inner, .. } => 3 + ty_nest(*inner),
        TyKind::Fn { params, returns: ret, .. } => 3 + nat_max(tys_nest(params@), ty_nest(*ret)),
        _ => 3,
    }
}

pub open spec fn tys_nest(s: Seq<Ty>) -> nat
    decreases s,
{
    if s.len() == 0 {
        0
    } else {
        nat_max(ty_nest(s[0]), tys_nest(s.drop_first()))
    }
}

pub open spec fn expr_nest(e: Expr) -> nat
    decreases e,
{
    match e {
        Expr::Ident(_) => 3,
        Expr::Literal(_) => 3,
        Expr::Continue(_) => 3,
        Expr::Block(b) => block_nest(b),
        Expr::BinOp(b) => 3 + nat_max(expr_nest(*b.lhs), expr_nest(*b.rhs)),
        Expr::Unary(u) => 3 + expr_nest(*u.rhs),
        Expr::Call(c) => 3 + nat_max(expr_nest(*c.func), exprs_nest(c.params@)),
        Expr::Index(i) => 3 + nat_max(expr_nest(*i.expr), expr_nest(*i.idx)),
        Expr::IfElse(ie) => 3 + nat_max(
            expr_nest(*ie.condition),
            nat_max(
                block_nest(ie.consequence),
                match ie.alternative {
                    Some(alt) => block_nest(alt),
                    None => 0,
                },
            ),
        ),
        Expr::List(l) => 3 + exprs_nest(l.items@),
        Expr::Constructor(c) => 3 + fields_nest(c.fields@),
        Expr::MemberAccess(a) => 3 + expr_nest(*a.lhs),
        Expr::Ref(inner) => 3 + expr_nest(*inner),
        Expr::Assign(a) => 3 + nat_max(expr_nest(*a.lhs), expr_nest(*a.rhs)),
        Expr::Break(b) => 3 + (match b.val {
            Some(v) => expr_nest(*v),
            None => 0,
        }),
        Expr::While(w) => 3 + nat_max(expr_nest(*w.condition), block_nest(w.consequence)),
    }
}

pub open spec fn exprs_nest(s: Seq<Expr>) -> nat
    decreases s,
{
    if s.len() == 0 {
        0
    } else {
        nat_max(expr_nest(s[0]), exprs_nest(s.drop_first()))
    }
}

pub open spec fn fields_nest(s: Seq<(Name, Expr)>) -> nat
    decreases s,
{
    if s.len() == 0 {
        0
    } else {
        nat_max(expr_nest(s[0].1), fields_nest(s.drop_first()))
    }
}

pub open spec fn block_nest(b: Block) -> nat
    decreases b,
{
    3 + stmnts_nest(b.nodes@)
}

pub open spec fn stmnts_nest(s: Seq<Stmnt>) -> nat
    decreases s,
{
    if s.len() == 0 {
        0
    } else {
        nat_max(stmnt_nest(s[0]), stmnts_nest(s.drop_first()))
    }
}

pub open spec fn stmnt_nest(s: Stmnt) -> nat
    decreases s,
{
    match s {
        Stmnt::Let(l) => 3 + nat_max(
            match l.ty {
                Some(t) => ty_nest(t),
                None => 0,
            },
            expr_nest(l.val),
        ),
        Stmnt::Ret(r) => 3 + expr_nest(r.val),
        Stmnt::Expr(e) => expr_nest(e),
    }
}

pub open spec fn local_params_nest(s: Seq<(Ident, Ty)>) -> nat
    decreases s,
{
    if s.len() == 0 {
        0
    } else {
        nat_max(ty_nest(s[0].1), local_params_nest(s.drop_first()))
    }
}

pub open spec fn named_tys_nest(s: Seq<(Name, Ty)>) -> nat
    decreases s,
{
    if s.len() == 0 {
        0
    } else {
        nat_max(ty_nest(s[0].1), named_tys_nest(s.drop_first()))
    }
}

pub open spec fn fn_nest(f: Fn) -> nat {
    3 + nat_max(
        ty_nest(f.return_ty),
        match f.kind {
            FnKind::Local { params, body } => nat_max(local_params_nest(params@), block_nest(body)),
            FnKind::Extern { params, .. } => named_tys_nest(params@),
        },
    )
}

pub open spec fn assoc_nest(s: Seq<AssocItem>) -> nat
    decreases s,
{
    if s.len() == 0 {
        0
    } else {
        nat_max(
            match s[0] {
                AssocItem::Fn(f) => fn_nest(f),
            },
            assoc_nest(s.drop_first()),
        )
    }
}

pub open spec fn item_nest(i: Item) -> nat {
    match i {
        Item::Use(_) => 3,
        Item::Fn(f) => fn_nest(f),
        Item::StructDef(s) => 3 + named_tys_nest(s.fields@),
        Item::Impl(imp) => 3 + assoc_nest(imp.items@),
    }
}

pub open spec fn items_nest(s: Seq<Item>) -> nat
    decreases s,
{
    if s.len() == 0 {
        0
    } else {
        nat_max(item_nest(s[0]), items_nest(s.drop_first()))
    }
}

// ---------------------------------------------------------------------------------------------
// The printed text of each kind of node, for line starts `st` and indentation depth `d`.
pub open spec fn quoted(text: Seq<char>) -> Seq<char> {
    " \""@ + text + "\""@
}

#[verifier::opaque]
pub open spec fn ty_text(st: Seq<usize>, t: Ty, d: nat) -> Seq<char>
    decreases t,
{
    indent_text(d) + "(type "@ + span_text(st, t.span) + (match t.kind {
        TyKind::Int(i) => " "@ + int_ty_name(i),
        TyKind::UInt(u) => " "@ + uint_ty_name(u),
        TyKind::Bool => " bool"@,
        TyKind::Str => " str"@,
        TyKind::List { inner, size } => (match size {
            Some(n) => " list["@ + decimal_digits(n as nat) + "]"@,
            None => " list"@,
        }) + "\n"@ + ty_text(st, *inner, d + 1),
        TyKind::Fn { params, returns: ret, is_extern } => (if is_extern {
            " extern fn"@
        } else {
            " fn"@
        }) + tys_text(st, params@, d + 1) + "\n"@ + indent_text(d + 1) + "(returns\n"@ + ty_text(
            st,
            *ret,
            d + 2,
        ) + ")"@,
        TyKind::Var(ident) => " "@ + ident.inner@,
    }) + ")"@
}

/// Each type on a line of its own.
#[verifier::opaque]
pub open spec fn tys_text(st: Seq<usize>, s: Seq<Ty>, d: nat) -> Seq<char>
    decreases s,
{
    if s.len() == 0 {
        Seq::empty()
    } else {
        tys_text(st, s.drop_last(), d) + "\n"@ + ty_text(st, s.last(), d)
    }
}

pub open spec fn literal_text(kind: LiteralKind) -> Seq<char> {
    match kind {
        LiteralKind::Str(s) => quoted(s@) + ")"@,
        LiteralKind::Int(v) => " "@ + decimal(v as int) + ")"@,
        LiteralKind::Bool(v) => " "@ + (if v {
            "true"@
        } else {
            "false"@
        }) + ")"@,
    }
}

pub open spec fn label_text(label: Option<Name>) -> Seq<char> {
    match label {
        Some(l) => quoted(l.inner@),
        None => Seq::empty(),
    }
}

#[verifier::opaque]
pub open spec fn expr_text(st: Seq<usize>, e: Expr, d: nat) -> Seq<char>
    decreases e,
{
    match e {
        Expr::Ident(ident) => indent_text(d) + "(identifier "@ + span_text(st, ident.span) + quoted(
            ident.inner@,
        ) + ")"@,
        Expr::Literal(lit) => indent_text(d) + "(literal "@ + span_text(st, lit.span) + literal_text(
            lit.kind,
        ),
        Expr::Block(block) => block_text(st, block, d),
        Expr::BinOp(b) => binop_expr_text(st, b, d),
        Expr::Unary(u) => unary_text(st, u, d),
        Expr::Call(c) => call_text(st, c, d),
        Expr::Index(i) => index_text(st, i, d),
        Expr::IfElse(ie) => if_else_text(st, ie, d),
        Expr::List(l) => indent_text(d) + "(list "@ + span_text(st, l.span) + exprs_text(
            st,
            l.items@,
            d + 1,
        ) + ")"@,
        Expr::Constructor(c) => indent_text(d) + "(constructor "@ + span_text(st, c.span) + quoted(
            c.ident.inner@,
        ) + fields_text(st, c.fields@, d + 1) + ")"@,
        Expr::MemberAccess(a) => member_text(st, a, d),
        Expr::Ref(inner) => indent_text(d) + "(ref "@ + span_text(st, expr_span(*inner)) + "\n"@
            + expr_text(st, *inner, d + 1) + ")"@,
        Expr::Assign(a) => assign_text(st, a, d),
        Expr::Break(b) => break_text(st, b, d),
        Expr::Continue(c) => indent_text(d) + "(continue "@ + span_text(st, c.span) + label_text(
            c.label,
        ) + ")"@,
        Expr::While(w) => while_text(st, w, d),
    }
}

#[verifier::opaque]
pub open spec fn binop_expr_text(st: Seq<usize>, b: BinOp, d: nat) -> Seq<char>
    decreases b,
{
    indent_text(d) + "(binary_op "@ + span_text(st, b.span) + " "@ + binop_text(b.op.kind) + "\n"@
        + expr_text(st, *b.lhs, d + 1) + "\n"@ + expr_text(st, *b.rhs, d + 1) + ")"@
}

#[verifier::opaque]
pub open spec fn unary_text(st: Seq<usize>, u: Unary, d: nat) -> Seq<char>
    decreases u,
{
    indent_text(d) + "(unary_op "@ + span_text(st, u.span) + " "@ + unaryop_text(u.op.kind) + "\n"@
        + expr_text(st, *u.rhs, d + 1) + ")"@
}

#[verifier::opaque]
pub open spec fn call_text(st: Seq<usize>, c: Call, d: nat) -> Seq<char>
    decreases c,
{
    indent_text(d) + "(call "@ + span_text(st, c.span) + "\n"@ + indent_text(d + 1) + "func:\n"@
        + expr_text(st, *c.func, d + 2) + (if c.params@.len() == 0 {
        Seq::empty()
    } else {
        "\n"@ + indent_text(d + 1) + "args:"@ + exprs_text(st, c.params@, d + 2)
    }) + ")"@
}

#[verifier::opaque]
pub open spec fn index_text(st: Seq<usize>, i: Index, d: nat) -> Seq<char>
    decreases i,
{
    indent_text(d) + "(index "@ + span_text(st, i.span) + "\n"@ + expr_text(st, *i.expr, d + 1)
        + "\n"@ + indent_text(d + 1) + "at:\n"@ + expr_text(st, *i.idx, d + 2) + ")"@
}

#[verifier::opaque]
pub open spec fn if_else_text(st: Seq<usize>, ie: IfElse, d: nat) -> Seq<char>
    decreases ie,
{
    indent_text(d) + "(if_else "@ + span_text(st, ie.span) + "\n"@ + indent_text(d + 1)
        + "condition:\n"@ + expr_text(st, *ie.condition, d + 2) + "\n"@ + indent_text(d + 1)
        + "consequence:\n"@ + block_text(st, ie.consequence, d + 2) + (match ie.alternative {
        Some(alt) => "\n"@ + indent_text(d + 1) + "alternative:\n"@ + block_text(st, alt, d + 2),
        None => Seq::empty(),
    }) + ")"@
}

#[verifier::opaque]
pub open spec fn member_text(st: Seq<usize>, a: MemberAccess, d: nat) -> Seq<char>
    decreases a,
{
    indent_text(d) + "(member_access "@ + span_text(st, a.span) + " ."@ + a.rhs.inner@ + "\n"@
        + expr_text(st, *a.lhs, d + 1) + ")"@
}

#[verifier::opaque]
pub open spec fn assign_text(st: Seq<usize>, a: Assign, d: nat) -> Seq<char>
    decreases a,
{
    indent_text(d) + "(assign "@ + span_text(st, a.span) + "\n"@ + expr_text(st, *a.lhs, d + 1)
        + "\n"@ + expr_text(st, *a.rhs, d + 1) + ")"@
}

#[verifier::opaque]
pub open spec fn break_text(st: Seq<usize>, b: Break, d: nat) -> Seq<char>
    decreases b,
{
    indent_text(d) + "(break "@ + span_text(st, b.span) + label_text(b.label) + (match b.val {
        Some(v) => "\n"@ + expr_text(st, *v, d + 1),
        None => Seq::empty(),
    }) + ")"@
}

#[verifier::opaque]
pub open spec fn while_text(st: Seq<usize>, w: While, d: nat) -> Seq<char>
    decreases w,
{
    indent_text(d) + "(while "@ + span_text(st, w.span) + label_text(w.label) + "\n"@ + indent_text(
        d + 1,
    ) + "condition:\n"@ + expr_text(st, *w.condition, d + 2) + "\n"@ + indent_text(d + 1)
        + "body:\n"@ + block_text(st, w.consequence, d + 2) + ")"@
}

/// Each expression on a line of its own.
#[verifier::opaque]
pub open spec fn exprs_text(st: Seq<usize>, s: Seq<Expr>, d: nat) -> Seq<char>
    decreases s,
{
    if s.len() == 0 {
        Seq::empty()
    } else {
        exprs_text(st, s.drop_last(), d) + "\n"@ + expr_text(st, s.last(), d)
    }
}

/// The fields of a constructor: each name on a line, its value below it.
#[verifier::opaque]
pub open spec fn fields_text(st: Seq<usize>, s: Seq<(Name, Expr)>, d: nat) -> Seq<char>
    decreases s,
{
    if s.len() == 0 {
        Seq::empty()
    } else {
        fields_text(st, s.drop_last(), d) + "\n"@ + indent_text(d) + s.last().0.inner@ + ":\n"@
            + expr_text(st, s.last().1, d + 1)
    }
}

#[verifier::opaque]
pub open spec fn block_text(st: Seq<usize>, b: Block, d: nat) -> Seq<char>
    decreases b,
{
    indent_text(d) + "(block "@ + span_text(st, b.span) + stmnts_text(st, b.nodes@, d + 1) + ")"@
}

/// Each statement on a line of its own.
#[verifier::opaque]
pub open spec fn stmnts_text(st: Seq<usize>, s: Seq<Stmnt>, d: nat) -> Seq<char>
    decreases s,
{
    if s.len() == 0 {
        Seq::empty()
    } else {
        stmnts_text(st, s.drop_last(), d) + "\n"@ + stmnt_text(st, s.last(), d)
    }
}

#[verifier::opaque]
pub open spec fn stmnt_text(st: Seq<usize>, s: Stmnt, d: nat) -> Seq<char>
    decreases s,
{
    match s {
        Stmnt::Let(l) => indent_text(d) + "(let "@ + span_text(st, l.span) + "\n"@ + indent_text(
            d + 1,
        ) + "name:"@ + quoted(l.ident.inner@) + (match l.ty {
            Some(t) => "\n"@ + indent_text(d + 1) + "type:\n"@ + ty_text(st, t, d + 2),
            None => Seq::empty(),
        }) + "\n"@ + indent_text(d + 1) + "value:\n"@ + expr_text(st, l.val, d + 2) + ")"@,
        Stmnt::Ret(r) => indent_text(d) + "(return "@ + span_text(st, r.span) + "\n"@ + expr_text(
            st,
            r.val,
            d + 1,
        ) + ")"@,
        Stmnt::Expr(e) => expr_text(st, e, d),
    }
}

/// The parameters of a local function, each as a `(param ...)` line with its type below.
#[verifier::opaque]
pub open spec fn local_params_text(st: Seq<usize>, s: Seq<(Ident, Ty)>, d: nat) -> Seq<char>
    decreases s,
{
    if s.len() == 0 {
        Seq::empty()
    } else {
        local_params_text(st, s.drop_last(), d) + "\n"@ + indent_text(d) + "(param "@ + span_text(
            st,
            s.last().0.span,
        ) + quoted(s.last().0.inner@) + "\n"@ + ty_text(st, s.last().1, d + 1) + ")"@
    }
}

/// Named types, each as a `(<word> ...)` line with its type below.
#[verifier::opaque]
pub open spec fn named_tys_text(st: Seq<usize>, word: Seq<char>, s: Seq<(Name, Ty)>, d: nat) -> Seq<
    char,
>
    decreases s,
{
    if s.len() == 0 {
        Seq::empty()
    } else {
        named_tys_text(st, word, s.drop_last(), d) + "\n"@ + indent_text(d) + "("@ + word + " "@
            + span_text(st, s.last().0.span) + quoted(s.last().0.inner@) + "\n"@ + ty_text(
            st,
            s.last().1,
            d + 1,
        ) + ")"@
    }
}

/// A local function after its indentation: name, parameters, return type and body.
#[verifier::opaque]
pub open spec fn local_fn_text(st: Seq<usize>, f: Fn, d: nat) -> Seq<char> {
    match f.kind {
        FnKind::Local { params, body } => "(function "@ + span_text(st, f.span) + quoted(
            f.ident.inner@,
        ) + "\n"@ + (if params@.len() == 0 {
            Seq::empty()
        } else {
            indent_text(d + 1) + "params:"@ + local_params_text(st, params@, d + 2) + "\n"@
        }) + indent_text(d + 1) + "returns:\n"@ + ty_text(st, f.return_ty, d + 2) + "\n"@
            + indent_text(d + 1) + "body:\n"@ + block_text(st, body, d + 2) + ")"@,
        FnKind::Extern { .. } => Seq::empty(),
    }
}

/// An external function after its indentation: name, parameters and return type.
#[verifier::opaque]
pub open spec fn extern_fn_text(st: Seq<usize>, f: Fn, d: nat) -> Seq<char> {
    match f.kind {
        FnKind::Extern { params, is_variadic } => "(extern_function "@ + span_text(st, f.span)
            + quoted(f.ident.inner@) + "\n"@ + (if params@.len() == 0 && !is_variadic {
            Seq::empty()
        } else {
            indent_text(d + 1) + "params:"@ + named_tys_text(st, "param"@, params@, d + 2) + (
            if is_variadic {
                "\n"@ + indent_text(d + 2) + "(variadic)"@
            } else {
                Seq::empty()
            }) + "\n"@
        }) + indent_text(d + 1) + "returns:\n"@ + ty_text(st, f.return_ty, d + 2) + ")"@,
        FnKind::Local { .. } => Seq::empty(),
    }
}

#[verifier::opaque]
pub open spec fn fn_text(st: Seq<usize>, f: Fn, d: nat) -> Seq<char> {
    indent_text(d) + match f.kind {
        FnKind::Local { .. } => local_fn_text(st, f, d),
        FnKind::Extern { .. } => extern_fn_text(st, f, d),
    }
}

/// The functions of an impl, each on a line of its own.
#[verifier::opaque]
pub open spec fn assoc_text(st: Seq<usize>, s: Seq<AssocItem>, d: nat) -> Seq<char>
    decreases s,
{
    if s.len() == 0 {
        Seq::empty()
    } else {
        assoc_text(st, s.drop_last(), d) + "\n"@ + (match s.last() {
            AssocItem::Fn(f) => fn_text(st, f, d),
        })
    }
}

#[verifier::opaque]
pub open spec fn item_text(st: Seq<usize>, i: Item, d: nat) -> Seq<char> {
    match i {
        Item::Use(u) => indent_text(d) + "(use "@ + span_text(st, u.span) + (if u.is_extern {
            " extern"@
        } else {
            Seq::empty()
        }) + quoted(u.name.inner@) + ")"@,
        Item::Fn(f) => fn_text(st, f, d),
        Item::StructDef(s) => indent_text(d) + "(struct_def "@ + span_text(st, s.span) + quoted(
            s.ident.inner@,
        ) + named_tys_text(st, "field"@, s.fields@, d + 1) + ")"@,
        Item::Impl(imp) => indent_text(d) + "(impl "@ + span_text(st, imp.span) + quoted(
            imp.ident.inner@,
        ) + assoc_text(st, imp.items@, d + 1) + ")"@,
    }
}

/// Each item on a line of its own.
#[verifier::opaque]
pub open spec fn items_text(st: Seq<usize>, s: Seq<Item>, d: nat) -> Seq<char>
    decreases s,
{
    if s.len() == 0 {
        Seq::empty()
    } else {
        items_text(st, s.drop_last(), d) + "\n"@ + item_text(st, s.last(), d)
    }
}

/// The whole module: `(module`, its items one level in, and `)` with a newline.
#[verifier::opaque]
pub open spec fn module_text(st: Seq<usize>, m: Module) -> Seq<char> {
    "(module"@ + items_text(st, m.items@, 1) + ")\n"@
}

// ---------------------------------------------------------------------------------------------
// Every element of a sequence nests no deeper than the sequence.
proof fn lemma_tys_nest(s: Seq<Ty>, i: int)
    requires
        0 <= i < s.len(),
    ensures
        ty_nest(s[i]) <= tys_nest(s),
    decreases s.len(),
{
    if i > 0 {
        lemma_tys_nest(s.drop_first(), i - 1);
    }
}

proof fn lemma_exprs_nest(s: Seq<Expr>, i: int)
    requires
        0 <= i < s.len(),
    ensures
        expr_nest(s[i]) <= exprs_nest(s),
    decreases s.len(),
{
    if i > 0 {
        lemma_exprs_nest(s.drop_first(), i - 1);
    }
}

proof fn lemma_fields_nest(s: Seq<(Name, Expr)>, i: int)
    requires
        0 <= i < s.len(),
    ensures
        expr_nest(s[i].1) <= fields_nest(s),
    decreases s.len(),
{
    if i > 0 {
        lemma_fields_nest(s.drop_first(), i - 1);
    }
}

proof fn lemma_stmnts_nest(s: Seq<Stmnt>, i: int)
    requires
        0 <= i < s.len(),
    ensures
        stmnt_nest(s[i]) <= stmnts_nest(s),
    decreases s.len(),
{
    if i > 0 {
        lemma_stmnts_nest(s.drop_first(), i - 1);
    }
}

proof fn lemma_local_params_nest(s: Seq<(Ident, Ty)>, i: int)
    requires
        0 <= i < s.len(),
    ensures
        ty_nest(s[i].1) <= local_params_nest(s),
    decreases s.len(),
{
    if i > 0 {
        lemma_local_params_nest(s.drop_first(), i - 1);
    }
}

proof fn lemma_named_tys_nest(s: Seq<(Name, Ty)>, i: int)
    requires
        0 <= i < s.len(),
    ensures
        ty_nest(s[i].1) <= named_tys_nest(s),
    decreases s.len(),
{
    if i > 0 {
        lemma_named_tys_nest(s.drop_first(), i - 1);
    }
}

proof fn lemma_assoc_nest(s: Seq<AssocItem>, i: int)
    requires
        0 <= i < s.len(),
    ensures
        (match s[i] {
            AssocItem::Fn(f) => fn_nest(f),
        }) <= assoc_nest(s),
    decreases s.len(),
{
    if i > 0 {
        lemma_assoc_nest(s.drop_first(), i - 1);
    }
}

proof fn lemma_items_nest(s: Seq<Item>, i: int)
    requires
        0 <= i < s.len(),
    ensures
        item_nest(s[i]) <= items_nest(s),
    decreases s.len(),
{
    if i > 0 {
        lemma_items_nest(s.drop_first(), i - 1);
    }
}

// ---------------------------------------------------------------------------------------------
/// Appends ` "text"` to `out`.
fn push_quoted(out: &mut String, text: &str)
    ensures
        final(out)@ == old(out)@ + quoted(text@),
{
    push_str(out, " \"");
    push_str(out, text);
    push_str(out, "\"");
    proof {
        assert(final(out)@ =~= old(out)@ + quoted(text@));
    }
}

/// Prints syntax trees of one source text, giving positions as line and column.
pub struct PrettyPrinter {
    line_starts: Vec<usize>,
}

impl PrettyPrinter {
    /// The offsets at which the lines of the source text start.
    pub closed spec fn starts(&self) -> Seq<usize> {
        self.line_starts@
    }

    pub closed spec fn wf(&self) -> bool {
        starts_wf(self.line_starts@)
    }

    pub fn new(source: &str) -> (r: Self)
        ensures
            r.wf(),
            r.starts() == line_starts_of(source.spec_bytes()),
    {
        let bytes = source.as_bytes();
        let mut line_starts: Vec<usize> = vec![0];
        let mut i: usize = 0;
        proof {
            assert(bytes@.take(0) =~= Seq::<u8>::empty());
        }
        while i < bytes.len()
            invariant
                i <= bytes@.len(),
                bytes@ == source.spec_bytes(),
                line_starts@ == line_starts_of(bytes@.take(i as int)),
            decreases bytes@.len() - i,
        {
            if bytes[i] == 10u8 {
                line_starts.push(i + 1);
            }
            proof {
                let t = bytes@.take(i + 1);
                assert(t.drop_last() =~= bytes@.take(i as int));
                assert(t.last() == bytes@[i as int]);
            }
            i += 1;
        }
        proof {
            assert(bytes@.take(bytes@.len() as int) =~= bytes@);
            lemma_line_starts(bytes@);
        }
        PrettyPrinter { line_starts }
    }

    /// The line and column of offset `x`: the last line that starts at or before `x`.
    fn pos(&self, x: u128) -> (r: (usize, u128))
        requires
            self.wf(),
        ensures
            r.0 == row_of(self.starts(), x as int),
            r.0 < self.starts().len(),
            r.1 == x - self.starts()[r.0 as int],
    {
        let n = self.line_starts.len();
        let mut lo: usize = 0;
        let mut hi: usize = n;
        while lo < hi
            invariant
                lo <= hi <= n,
                n == self.line_starts@.len(),
                starts_wf(self.line_starts@),
                forall|j: int| 0 <= j < lo ==> self.line_starts@[j] <= x,
                forall|j: int| hi <= j < n ==> self.line_starts@[j] > x,
            decreases hi - lo,
        {
            let mid = lo + (hi - lo) / 2;
            if (self.line_starts[mid] as u128) <= x {
                proof {
                    assert forall|j: int| 0 <= j < mid + 1 implies self.line_starts@[j] <= x by {
                        if j < mid {
                            assert(self.line_starts@[j] < self.line_starts@[mid as int]);
                        }
                    }
                }
                lo = mid + 1;
            } else {
                proof {
                    assert forall|j: int| mid <= j < n implies self.line_starts@[j] > x by {
                        if j > mid {
                            assert(self.line_starts@[mid as int] < self.line_starts@[j]);
                        }
                    }
                }
                hi = mid;
            }
        }
        proof {
            lemma_count_le_split(self.line_starts@, x as int, lo as int);
            assert(self.line_starts@[0] <= x);
        }
        let row = lo - 1;
        let col = x - self.line_starts[row] as u128;
        (row, col)
    }

    fn fmt_span(&self, out: &mut String, span: Span)
        requires
            self.wf(),
        ensures
            final(out)@ == old(out)@ + span_text(self.starts(), span),
    {
        proof {
            reveal(span_text);
        }
        let start = self.pos(span.offset as u128);
        let end = self.pos(span.offset as u128 + span.length as u128);
        push_str(out, "[");
        push_decimal_u128(out, start.0 as u128);
        push_str(out, ":");
        push_decimal_u128(out, start.1);
        push_str(out, " - ");
        push_decimal_u128(out, end.0 as u128);
        push_str(out, ":");
        push_decimal_u128(out, end.1);
        push_str(out, "]");
        proof {
            assert(final(out)@ =~= old(out)@ + span_text(self.starts(), span));
        }
    }

    fn indent(out: &mut String, depth: usize)
        ensures
            final(out)@ == old(out)@ + indent_text(depth as nat),
    {
        proof {
            reveal_with_fuel(indent_text, 1);
        }
        let ghost start = out@;
        let mut i: usize = 0;
        while i < depth
            invariant
                i <= depth,
                out@ == start + indent_text(i as nat),
            decreases depth - i,
        {
            push_str(out, "  ");
            proof {
                reveal_with_fuel(indent_text, 1);
                broadcast use crate::text::lemma_add_assoc;
                assert(out@ == start + indent_text((i + 1) as nat));
            }
            i += 1;
        }
    }

    fn fmt_ty(&self, out: &mut String, ty: &Ty, depth: usize)
        requires
            self.wf(),
            depth + ty_nest(*ty) <= usize::MAX,
        ensures
            final(out)@ == old(out)@ + ty_text(self.starts(), *ty, depth as nat),
        decreases ty,
    {
        proof {
            reveal_with_fuel(ty_text, 1);
            reveal_with_fuel(tys_text, 1);
        }
        let ghost start = out@;
        let ghost st = self.starts();
        Self::indent(out, depth);
        push_str(out, "(type ");
        self.fmt_span(out, ty.span);
        match &ty.kind {
            TyKind::Int(t) => {
                push_str(out, " ");
                push_str(out, t.as_str());
            },
            TyKind::UInt(t) => {
                push_str(out, " ");
                push_str(out, t.as_str());
            },
            TyKind::Bool => push_str(out, " bool"),
            TyKind::Str => push_str(out, " str"),
            TyKind::List { inner, size } => {
                match size {
                    Some(n) => {
                        push_str(out, " list[");
                        push_decimal_u128(out, *n as u128);
                        push_str(out, "]");
                    },
                    None => push_str(out, " list"),
                }
                push_str(out, "\n");
                self.fmt_ty(out, inner, depth + 1);
            },
            TyKind::Fn { params, returns: ret, is_extern } => {
                if *is_extern {
                    push_str(out, " extern fn");
                } else {
                    push_str(out, " fn");
                }
                self.fmt_tys(out, params, depth + 1);
                push_str(out, "\n");
                Self::indent(out, depth + 1);
                push_str(out, "(returns\n");
                self.fmt_ty(out, ret, depth + 2);
                push_str(out, ")");
            },
            TyKind::Var(ident) => {
                push_str(out, " ");
                push_str(out, ident.inner.as_str());
            },
        }
        push_str(out, ")");
        proof {
            broadcast use crate::text::lemma_add_assoc;
            assert(out@ == start + ty_text(st, *ty, depth as nat));
        }
    }

    fn fmt_tys(&self, out: &mut String, tys: &Vec<Ty>, depth: usize)
        requires
            self.wf(),
            depth + tys_nest(tys@) <= usize::MAX,
        ensures
            final(out)@ == old(out)@ + tys_text(self.starts(), tys@, depth as nat),
        decreases tys, 0nat,
    {
        proof {
            reveal_with_fuel(tys_text, 1);
            reveal_with_fuel(ty_text, 1);
        }
        let ghost start = out@;
        let ghost st = self.starts();
        let mut i: usize = 0;
        proof {
            assert(tys@.take(0) =~= Seq::<Ty>::empty());
            assert(start + tys_text(st, tys@.take(0), depth as nat) =~= start);
        }
        while i < tys.len()
            invariant
                i <= tys@.len(),
                self.wf(),
                st == self.starts(),
                depth + tys_nest(tys@) <= usize::MAX,
                out@ == start + tys_text(st, tys@.take(i as int), depth as nat),
            decreases tys@.len() - i,
        {
            proof {
                lemma_tys_nest(tys@, i as int);
            }
            push_str(out, "\n");
            self.fmt_ty(out, &tys[i], depth);
            proof {
                let t = tys@.take(i + 1);
                assert(t.drop_last() =~= tys@.take(i as int));
                assert(t.last() == tys@[i as int]);
                reveal_with_fuel(tys_text, 1);
                reveal_with_fuel(ty_text, 1);
                broadcast use crate::text::lemma_add_assoc;
                assert(out@ == start + tys_text(st, t, depth as nat));
            }
            i += 1;
        }
        proof {
            assert(tys@.take(tys@.len() as int) =~= tys@);
        }
    }

    fn fmt_label(out: &mut String, label: &Option<Name>)
        ensures
            final(out)@ == old(out)@ + match *label {
                Some(l) => quoted(l.inner@),
                None => Seq::<char>::empty(),
            },
    {
        match label {
            Some(l) => push_quoted(out, l.inner.as_str()),
            None => {
                proof {
                    assert(out@ =~= old(out)@ + Seq::<char>::empty());
                }
            },
        }
    }

    fn fmt_expr(&self, out: &mut String, expr: &Expr, depth: usize)
        requires
            self.wf(),
            depth + expr_nest(*expr) <= usize::MAX,
        ensures
            final(out)@ == old(out)@ + expr_text(self.starts(), *expr, depth as nat),
        decreases expr,
    {
        proof {
            reveal_with_fuel(expr_text, 1);
            reveal_with_fuel(block_text, 1);
            reveal_with_fuel(binop_expr_text, 1);
            reveal_with_fuel(unary_text, 1);
            reveal_with_fuel(call_text, 1);
            reveal_with_fuel(index_text, 1);
            reveal_with_fuel(if_else_text, 1);
            reveal_with_fuel(exprs_text, 1);
            reveal_with_fuel(fields_text, 1);
            reveal_with_fuel(member_text, 1);
            reveal_with_fuel(assign_text, 1);
            reveal_with_fuel(break_text, 1);
            reveal_with_fuel(while_text, 1);
        }
        let ghost start = out@;
        let ghost st = self.starts();
        match expr {
            Expr::Ident(ident) => {
                Self::indent(out, depth);
                push_str(out, "(identifier ");
                self.fmt_span(out, ident.span);
                push_quoted(out, ident.inner.as_str());
                push_str(out, ")");
                proof {
                    broadcast use crate::text::lemma_add_assoc;
                    assert(out@ == start + expr_text(st, *expr, depth as nat));
                }
            },
            Expr::Literal(lit) => {
                Self::indent(out, depth);
                push_str(out, "(literal ");
                self.fmt_span(out, lit.span);
                Self::fmt_literal_kind(out, &lit.kind);
                proof {
                    broadcast use crate::text::lemma_add_assoc;
                    assert(out@ == start + expr_text(st, *expr, depth as nat));
                }
            },
            Expr::Block(block) => self.fmt_block(out, block, depth),
            Expr::BinOp(bin_op) => self.fmt_binop_expr(out, bin_op, depth),
            Expr::Unary(unary) => self.fmt_unary(out, unary, depth),
            Expr::Call(call) => self.fmt_call(out, call, depth),
            Expr::Index(index) => self.fmt_index(out, index, depth),
            Expr::IfElse(if_else) => self.fmt_if_else(out, if_else, depth),
            Expr::List(list) => {
                Self::indent(out, depth);
                push_str(out, "(list ");
                self.fmt_span(out, list.span);
                self.fmt_exprs(out, &list.items, depth + 1);
                push_str(out, ")");
                proof {
                    broadcast use crate::text::lemma_add_assoc;
                    assert(out@ == start + expr_text(st, *expr, depth as nat));
                }
            },
            Expr::Constructor(ctor) => {
                Self::indent(out, depth);
                push_str(out, "(constructor ");
                self.fmt_span(out, ctor.span);
                push_quoted(out, ctor.ident.inner.as_str());
                self.fmt_fields(out, &ctor.fields, depth + 1);
                push_str(out, ")");
                proof {
                    broadcast use crate::text::lemma_add_assoc;
                    assert(out@ == start + expr_text(st, *expr, depth as nat));
                }
            },
            Expr::MemberAccess(access) => self.fmt_member(out, access, depth),
            Expr::Ref(inner) => {
                Self::indent(out, depth);
                push_str(out, "(ref ");
                self.fmt_span(out, inner.span());
                push_str(out, "\n");
                self.fmt_expr(out, inner, depth + 1);
                push_str(out, ")");
                proof {
                    broadcast use crate::text::lemma_add_assoc;
                    assert(out@ == start + expr_text(st, *expr, depth as nat));
                }
            },
            Expr::Assign(assign) => self.fmt_assign(out, assign, depth),
            Expr::Break(brk) => self.fmt_break(out, brk, depth),
            Expr::Continue(cont) => {
                Self::indent(out, depth);
                push_str(out, "(continue ");
                self.fmt_span(out, cont.span);
                Self::fmt_label(out, &cont.label);
                push_str(out, ")");
                proof {
                    broadcast use crate::text::lemma_add_assoc;
                    assert(out@ == start + expr_text(st, *expr, depth as nat));
                }
            },
            Expr::While(w) => self.fmt_while(out, w, depth),
        }
    }

    fn fmt_literal_kind(out: &mut String, kind: &LiteralKind)
        ensures
            final(out)@ == old(out)@ + literal_text(*kind),
    {
        match kind {
            LiteralKind::Str(text) => {
                push_quoted(out, text.as_str());
                push_str(out, ")");
            },
            LiteralKind::Int(v) => {
                push_str(out, " ");
                push_decimal_i128(out, *v);
                push_str(out, ")");
            },
            LiteralKind::Bool(v) => {
                push_str(out, " ");
                if *v {
                    push_str(out, "true");
                } else {
                    push_str(out, "false");
                }
                push_str(out, ")");
            },
        }
        proof {
            assert(final(out)@ =~= old(out)@ + literal_text(*kind));
        }
    }

    fn fmt_binop_expr(&self, out: &mut String, bin_op: &BinOp, depth: usize)
        requires
            self.wf(),
            depth + 3 + nat_max(expr_nest(*bin_op.lhs), expr_nest(*bin_op.rhs)) <= usize::MAX,
        ensures
            final(out)@ == old(out)@ + binop_expr_text(self.starts(), *bin_op, depth as nat),
        decreases bin_op,
    {
        proof {
            reveal_with_fuel(binop_expr_text, 1);
            reveal_with_fuel(expr_text, 1);
        }
        let ghost start = out@;
        Self::indent(out, depth);
        push_str(out, "(binary_op ");
        self.fmt_span(out, bin_op.span);
        push_str(out, " ");
        push_str(out, fmt_binop(&bin_op.op.kind));
        push_str(out, "\n");
        self.fmt_expr(out, &bin_op.lhs, depth + 1);
        push_str(out, "\n");
        self.fmt_expr(out, &bin_op.rhs, depth + 1);
        push_str(out, ")");
        proof {
            broadcast use crate::text::lemma_add_assoc;
            assert(out@ == start + binop_expr_text(self.starts(), *bin_op, depth as nat));
        }
    }

    fn fmt_unary(&self, out: &mut String, unary: &Unary, depth: usize)
        requires
            self.wf(),
            depth + 3 + expr_nest(*unary.rhs) <= usize::MAX,
        ensures
            final(out)@ == old(out)@ + unary_text(self.starts(), *unary, depth as nat),
        decreases unary,
    {
        proof {
            reveal_with_fuel(unary_text, 1);
            reveal_with_fuel(expr_text, 1);
        }
        let ghost start = out@;
        Self::indent(out, depth);
        push_str(out, "(unary_op ");
        self.fmt_span(out, unary.span);
        push_str(out, " ");
        push_str(out, fmt_unaryop(&unary.op.kind));
        push_str(out, "\n");
        self.fmt_expr(out, &unary.rhs, depth + 1);
        push_str(out, ")");
        proof {
            broadcast use crate::text::lemma_add_assoc;
            assert(out@ == start + unary_text(self.starts(), *unary, depth as nat));
        }
    }

    fn fmt_call(&self, out: &mut String, call: &Call, depth: usize)
        requires
            self.wf(),
            depth + 3 + nat_max(expr_nest(*call.func), exprs_nest(call.params@)) <= usize::MAX,
        ensures
            final(out)@ == old(out)@ + call_text(self.starts(), *call, depth as nat),
        decreases call,
    {
        proof {
            reveal_with_fuel(call_text, 1);
            reveal_with_fuel(expr_text, 1);
            reveal_with_fuel(exprs_text, 1);
        }
        let ghost start = out@;
        Self::indent(out, depth);
        push_str(out, "(call ");
        self.fmt_span(out, call.span);
        push_str(out, "\n");
        Self::indent(out, depth + 1);
        push_str(out, "func:\n");
        self.fmt_expr(out, &call.func, depth + 2);
        let ghost mid = out@;
        if call.params.len() != 0 {
            push_str(out, "\n");
            Self::indent(out, depth + 1);
            push_str(out, "args:");
            self.fmt_exprs(out, &call.params, depth + 2);
        }
        proof {
            if call.params@.len() == 0 {
                assert(out@ =~= mid + Seq::<char>::empty());
            }
        }
        push_str(out, ")");
        proof {
            broadcast use crate::text::lemma_add_assoc;
            assert(out@ == start + call_text(self.starts(), *call, depth as nat));
        }
    }

    fn fmt_index(&self, out: &mut String, index: &Index, depth: usize)
        requires
            self.wf(),
            depth + 3 + nat_max(expr_nest(*index.expr), expr_nest(*index.idx)) <= usize::MAX,
        ensures
            final(out)@ == old(out)@ + index_text(self.starts(), *index, depth as nat),
        decreases index,
    {
        proof {
            reveal_with_fuel(index_text, 1);
            reveal_with_fuel(expr_text, 1);
        }
        let ghost start = out@;
        Self::indent(out, depth);
        push_str(out, "(index ");
        self.fmt_span(out, index.span);
        push_str(out, "\n");
        self.fmt_expr(out, &index.expr, depth + 1);
        push_str(out, "\n");
        Self::indent(out, depth + 1);
        push_str(out, "at:\n");
        self.fmt_expr(out, &index.idx, depth + 2);
        push_str(out, ")");
        proof {
            broadcast use crate::text::lemma_add_assoc;
            assert(out@ == start + index_text(self.starts(), *index, depth as nat));
        }
    }

    fn fmt_if_else(&self, out: &mut String, if_else: &IfElse, depth: usize)
        requires
            self.wf(),
            depth + 3 + nat_max(
                expr_nest(*if_else.condition),
                nat_max(
                    block_nest(if_else.consequence),
                    match if_else.alternative {
                        Some(alt) => block_nest(alt),
                        None => 0,
                    },
                ),
            ) <= usize::MAX,
        ensures
            final(out)@ == old(out)@ + if_else_text(self.starts(), *if_else, depth as nat),
        decreases if_else,
    {
        proof {
            reveal_with_fuel(if_else_text, 1);
            reveal_with_fuel(expr_text, 1);
            reveal_with_fuel(block_text, 1);
        }
        let ghost start = out@;
        Self::indent(out, depth);
        push_str(out, "(if_else ");
        self.fmt_span(out, if_else.span);
        push_str(out, "\n");
        Self::indent(out, depth + 1);
        push_str(out, "condition:\n");
        self.fmt_expr(out, &if_else.condition, depth + 2);
        push_str(out, "\n");
        Self::indent(out, depth + 1);
        push_str(out, "consequence:\n");
        self.fmt_block(out, &if_else.consequence, depth + 2);
        let ghost mid = out@;
        match &if_else.alternative {
            Some(alt) => {
                push_str(out, "\n");
                Self::indent(out, depth + 1);
                push_str(out, "alternative:\n");
                self.fmt_block(out, alt, depth + 2);
            },
            None => {
                proof {
                    assert(out@ =~= mid + Seq::<char>::empty());
                }
            },
        }
        push_str(out, ")");
        proof {
            broadcast use crate::text::lemma_add_assoc;
            assert(out@ == start + if_else_text(self.starts(), *if_else, depth as nat));
        }
    }

    fn fmt_member(&self, out: &mut String, access: &MemberAccess, depth: usize)
        requires
            self.wf(),
            depth + 3 + expr_nest(*access.lhs) <= usize::MAX,
        ensures
            final(out)@ == old(out)@ + member_text(self.starts(), *access, depth as nat),
        decreases access,
    {
        proof {
            reveal_with_fuel(member_text, 1);
            reveal_with_fuel(expr_text, 1);
        }
        let ghost start = out@;
        Self::indent(out, depth);
        push_str(out, "(member_access ");
        self.fmt_span(out, access.span);
        push_str(out, " .");
        push_str(out, access.rhs.inner.as_str());
        push_str(out, "\n");
        self.fmt_expr(out, &access.lhs, depth + 1);
        push_str(out, ")");
        proof {
            broadcast use crate::text::lemma_add_assoc;
            assert(out@ == start + member_text(self.starts(), *access, depth as nat));
        }
    }

    fn fmt_assign(&self, out: &mut String, assign: &Assign, depth: usize)
        requires
            self.wf(),
            depth + 3 + nat_max(expr_nest(*assign.lhs), expr_nest(*assign.rhs)) <= usize::MAX,
        ensures
            final(out)@ == old(out)@ + assign_text(self.starts(), *assign, depth as nat),
        decreases assign,
    {
        proof {
            reveal_with_fuel(assign_text, 1);
            reveal_with_fuel(expr_text, 1);
        }
        let ghost start = out@;
        Self::indent(out, depth);
        push_str(out, "(assign ");
        self.fmt_span(out, assign.span);
        push_str(out, "\n");
        self.fmt_expr(out, &assign.lhs, depth + 1);
        push_str(out, "\n");
        self.fmt_expr(out, &assign.rhs, depth + 1);
        push_str(out, ")");
        proof {
            broadcast use crate::text::lemma_add_assoc;
            assert(out@ == start + assign_text(self.starts(), *assign, depth as nat));
        }
    }

    fn fmt_break(&self, out: &mut String, brk: &Break, depth: usize)
        requires
            self.wf(),
            depth + 3 + (match brk.val {
                Some(v) => expr_nest(*v),
                None => 0,
            }) <= usize::MAX,
        ensures
            final(out)@ == old(out)@ + break_text(self.starts(), *brk, depth as nat),
        decreases brk,
    {
        proof {
            reveal_with_fuel(break_text, 1);
            reveal_with_fuel(expr_text, 1);
        }
        let ghost start = out@;
        Self::indent(out, depth);
        push_str(out, "(break ");
        self.fmt_span(out, brk.span);
        Self::fmt_label(out, &brk.label);
        let ghost mid = out@;
        match &brk.val {
            Some(val) => {
                push_str(out, "\n");
                self.fmt_expr(out, val, depth + 1);
            },
            None => {
                proof {
                    assert(out@ =~= mid + Seq::<char>::empty());
                }
            },
        }
        push_str(out, ")");
        proof {
            broadcast use crate::text::lemma_add_assoc;
            assert(out@ == start + break_text(self.starts(), *brk, depth as nat));
        }
    }

    fn fmt_while(&self, out: &mut String, w: &While, depth: usize)
        requires
            self.wf(),
            depth + 3 + nat_max(expr_nest(*w.condition), block_nest(w.consequence)) <= usize::MAX,
        ensures
            final(out)@ == old(out)@ + while_text(self.starts(), *w, depth as nat),
        decreases w,
    {
        proof {
            reveal_with_fuel(while_text, 1);
            reveal_with_fuel(expr_text, 1);
            reveal_with_fuel(block_text, 1);
        }
        let ghost start = out@;
        Self::indent(out, depth);
        push_str(out, "(while ");
        self.fmt_span(out, w.span);
        Self::fmt_label(out, &w.label);
        push_str(out, "\n");
        Self::indent(out, depth + 1);
        push_str(out, "condition:\n");
        self.fmt_expr(out, &w.condition, depth + 2);
        push_str(out, "\n");
        Self::indent(out, depth + 1);
        push_str(out, "body:\n");
        self.fmt_block(out, &w.consequence, depth + 2);
        push_str(out, ")");
        proof {
            broadcast use crate::text::lemma_add_assoc;
            assert(out@ == start + while_text(self.starts(), *w, depth as nat));
        }
    }

    fn fmt_exprs(&self, out: &mut String, exprs: &Vec<Expr>, depth: usize)
        requires
            self.wf(),
            depth + exprs_nest(exprs@) <= usize::MAX,
        ensures
            final(out)@ == old(out)@ + exprs_text(self.starts(), exprs@, depth as nat),
        decreases exprs, 0nat,
    {
        proof {
            reveal_with_fuel(exprs_text, 1);
            reveal_with_fuel(expr_text, 1);
        }
        let ghost start = out@;
        let ghost st = self.starts();
        let mut i: usize = 0;
        proof {
            assert(exprs@.take(0) =~= Seq::<Expr>::empty());
            assert(start + exprs_text(st, exprs@.take(0), depth as nat) =~= start);
        }
        while i < exprs.len()
            invariant
                i <= exprs@.len(),
                self.wf(),
                st == self.starts(),
                depth + exprs_nest(exprs@) <= usize::MAX,
                out@ == start + exprs_text(st, exprs@.take(i as int), depth as nat),
            decreases exprs@.len() - i,
        {
            proof {
                lemma_exprs_nest(exprs@, i as int);
            }
            push_str(out, "\n");
            self.fmt_expr(out, &exprs[i], depth);
            proof {
                let t = exprs@.take(i + 1);
                assert(t.drop_last() =~= exprs@.take(i as int));
                assert(t.last() == exprs@[i as int]);
                reveal_with_fuel(exprs_text, 1);
                reveal_with_fuel(expr_text, 1);
                broadcast use crate::text::lemma_add_assoc;
                assert(out@ == start + exprs_text(st, t, depth as nat));
            }
            i += 1;
        }
        proof {
            assert(exprs@.take(exprs@.len() as int) =~= exprs@);
        }
    }

    fn fmt_fields(&self, out: &mut String, fields: &Vec<(Name, Expr)>, depth: usize)
        requires
            self.wf(),
            depth + 1 + fields_nest(fields@) <= usize::MAX,
        ensures
            final(out)@ == old(out)@ + fields_text(self.starts(), fields@, depth as nat),
        decreases fields, 0nat,
    {
        proof {
            reveal_with_fuel(fields_text, 1);
            reveal_with_fuel(expr_text, 1);
        }
        let ghost start = out@;
        let ghost st = self.starts();
        let mut i: usize = 0;
        proof {
            assert(fields@.take(0) =~= Seq::<(Name, Expr)>::empty());
            assert(start + fields_text(st, fields@.take(0), depth as nat) =~= start);
        }
        while i < fields.len()
            invariant
                i <= fields@.len(),
                self.wf(),
                st == self.starts(),
                depth + 1 + fields_nest(fields@) <= usize::MAX,
                out@ == start + fields_text(st, fields@.take(i as int), depth as nat),
            decreases fields@.len() - i,
        {
            proof {
                lemma_fields_nest(fields@, i as int);
            }
            let (name, val) = &fields[i];
            push_str(out, "\n");
            Self::indent(out, depth);
            push_str(out, name.inner.as_str());
            push_str(out, ":\n");
            self.fmt_expr(out, val, depth + 1);
            proof {
                let t = fields@.take(i + 1);
                assert(t.drop_last() =~= fields@.take(i as int));
                assert(t.last() == fields@[i as int]);
                reveal_with_fuel(fields_text, 1);
                reveal_with_fuel(expr_text, 1);
                broadcast use crate::text::lemma_add_assoc;
                assert(out@ == start + fields_text(st, t, depth as nat));
            }
            i += 1;
        }
        proof {
            assert(fields@.take(fields@.len() as int) =~= fields@);
        }
    }

    fn fmt_block(&self, out: &mut String, block: &Block, depth: usize)
        requires
            self.wf(),
            depth + block_nest(*block) <= usize::MAX,
        ensures
            final(out)@ == old(out)@ + block_text(self.starts(), *block, depth as nat),
        decreases block,
    {
        proof {
            reveal_with_fuel(block_text, 1);
            reveal_with_fuel(stmnts_text, 1);
        }
        let ghost start = out@;
        Self::indent(out, depth);
        push_str(out, "(block ");
        self.fmt_span(out, block.span);
        self.fmt_stmnts(out, &block.nodes, depth + 1);
        push_str(out, ")");
        proof {
            broadcast use crate::text::lemma_add_assoc;
            assert(out@ == start + block_text(self.starts(), *block, depth as nat));
        }
    }

    fn fmt_stmnts(&self, out: &mut String, stmnts: &Vec<Stmnt>, depth: usize)
        requires
            self.wf(),
            depth + stmnts_nest(stmnts@) <= usize::MAX,
        ensures
            final(out)@ == old(out)@ + stmnts_text(self.starts(), stmnts@, depth as nat),
        decreases stmnts, 0nat,
    {
        proof {
            reveal_with_fuel(stmnts_text, 1);
            reveal_with_fuel(stmnt_text, 1);
        }
        let ghost start = out@;
        let ghost st = self.starts();
        let mut i: usize = 0;
        proof {
            assert(stmnts@.take(0) =~= Seq::<Stmnt>::empty());
            assert(start + stmnts_text(st, stmnts@.take(0), depth as nat) =~= start);
        }
        while i < stmnts.len()
            invariant
                i <= stmnts@.len(),
                self.wf(),
                st == self.starts(),
                depth + stmnts_nest(stmnts@) <= usize::MAX,
                out@ == start + stmnts_text(st, stmnts@.take(i as int), depth as nat),
            decreases stmnts@.len() - i,
        {
            proof {
                lemma_stmnts_nest(stmnts@, i as int);
            }
            push_str(out, "\n");
            self.fmt_stmnt(out, &stmnts[i], depth);
            proof {
                let t = stmnts@.take(i + 1);
                assert(t.drop_last() =~= stmnts@.take(i as int));
                assert(t.last() == stmnts@[i as int]);
                reveal_with_fuel(stmnts_text, 1);
                reveal_with_fuel(stmnt_text, 1);
                broadcast use crate::text::lemma_add_assoc;
                assert(out@ == start + stmnts_text(st, t, depth as nat));
            }
            i += 1;
        }
        proof {
            assert(stmnts@.take(stmnts@.len() as int) =~= stmnts@);
        }
    }

    fn fmt_stmnt(&self, out: &mut String, stmnt: &Stmnt, depth: usize)
        requires
            self.wf(),
            depth + stmnt_nest(*stmnt) <= usize::MAX,
        ensures
            final(out)@ == old(out)@ + stmnt_text(self.starts(), *stmnt, depth as nat),
        decreases stmnt,
    {
        proof {
            reveal_with_fuel(stmnt_text, 1);
            reveal_with_fuel(expr_text, 1);
        }
        let ghost start = out@;
        let ghost st = self.starts();
        match stmnt {
            Stmnt::Let(let_) => {
                Self::indent(out, depth);
                push_str(out, "(let ");
                self.fmt_span(out, let_.span);
                push_str(out, "\n");
                Self::indent(out, depth + 1);
                push_str(out, "name:");
                push_quoted(out, let_.ident.inner.as_str());
                match &let_.ty {
                    Some(ty) => {
                        push_str(out, "\n");
                        Self::indent(out, depth + 1);
                        push_str(out, "type:\n");
                        self.fmt_ty(out, ty, depth + 2);
                    },
                    None => {},
                }
                push_str(out, "\n");
                Self::indent(out, depth + 1);
                push_str(out, "value:\n");
                self.fmt_expr(out, &let_.val, depth + 2);
                push_str(out, ")");
            },
            Stmnt::Ret(ret) => {
                Self::indent(out, depth);
                push_str(out, "(return ");
                self.fmt_span(out, ret.span);
                push_str(out, "\n");
                self.fmt_expr(out, &ret.val, depth + 1);
                push_str(out, ")");
            },
            Stmnt::Expr(expr) => self.fmt_expr(out, expr, depth),
        }
        proof {
            broadcast use crate::text::lemma_add_assoc;
            assert(out@ == start + stmnt_text(st, *stmnt, depth as nat));
        }
    }

    fn fmt_local_params(&self, out: &mut String, params: &Vec<(Ident, Ty)>, depth: usize)
        requires
            self.wf(),
            depth + 1 + local_params_nest(params@) <= usize::MAX,
        ensures
            final(out)@ == old(out)@ + local_params_text(self.starts(), params@, depth as nat),
    {
        let ghost start = out@;
        let ghost st = self.starts();
        let mut i: usize = 0;
        proof {
            reveal_with_fuel(local_params_text, 1);
            assert(params@.take(0) =~= Seq::<(Ident, Ty)>::empty());
            assert(start + local_params_text(st, params@.take(0), depth as nat) =~= start);
        }
        while i < params.len()
            invariant
                i <= params@.len(),
                self.wf(),
                st == self.starts(),
                depth + 1 + local_params_nest(params@) <= usize::MAX,
                out@ == start + local_params_text(st, params@.take(i as int), depth as nat),
            decreases params@.len() - i,
        {
            proof {
                lemma_local_params_nest(params@, i as int);
            }
            let (ident, ty) = &params[i];
            push_str(out, "\n");
            Self::indent(out, depth);
            push_str(out, "(param ");
            self.fmt_span(out, ident.span);
            push_quoted(out, ident.inner.as_str());
            push_str(out, "\n");
            self.fmt_ty(out, ty, depth + 1);
            push_str(out, ")");
            proof {
                reveal_with_fuel(local_params_text, 1);
                let t = params@.take(i + 1);
                assert(t.drop_last() =~= params@.take(i as int));
                assert(t.last() == params@[i as int]);
                broadcast use crate::text::lemma_add_assoc;
                assert(out@ == start + local_params_text(st, t, depth as nat));
            }
            i += 1;
        }
        proof {
            assert(params@.take(params@.len() as int) =~= params@);
        }
    }

    fn fmt_named_tys(&self, out: &mut String, word: &str, params: &Vec<(Name, Ty)>, depth: usize)
        requires
            self.wf(),
            depth + 1 + named_tys_nest(params@) <= usize::MAX,
        ensures
            final(out)@ == old(out)@ + named_tys_text(self.starts(), word@, params@, depth as nat),
    {
        let ghost start = out@;
        let ghost st = self.starts();
        let mut i: usize = 0;
        proof {
            reveal_with_fuel(named_tys_text, 1);
            assert(params@.take(0) =~= Seq::<(Name, Ty)>::empty());
            assert(start + named_tys_text(st, word@, params@.take(0), depth as nat) =~= start);
        }
        while i < params.len()
            invariant
                i <= params@.len(),
                self.wf(),
                st == self.starts(),
                depth + 1 + named_tys_nest(params@) <= usize::MAX,
                out@ == start + named_tys_text(st, word@, params@.take(i as int), depth as nat),
            decreases params@.len() - i,
        {
            proof {
                lemma_named_tys_nest(params@, i as int);
            }
            let (name, ty) = &params[i];
            push_str(out, "\n");
            Self::indent(out, depth);
            push_str(out, "(");
            push_str(out, word);
            push_str(out, " ");
            self.fmt_span(out, name.span);
            push_quoted(out, name.inner.as_str());
            push_str(out, "\n");
            self.fmt_ty(out, ty, depth + 1);
            push_str(out, ")");
            proof {
                reveal_with_fuel(named_tys_text, 1);
                let t = params@.take(i + 1);
                assert(t.drop_last() =~= params@.take(i as int));
                assert(t.last() == params@[i as int]);
                broadcast use crate::text::lemma_add_assoc;
                assert(out@ == start + named_tys_text(st, word@, t, depth as nat));
            }
            i += 1;
        }
        proof {
            assert(params@.take(params@.len() as int) =~= params@);
        }
    }

    fn fmt_fn(&self, out: &mut String, func: &Fn, depth: usize)
        requires
            self.wf(),
            depth + fn_nest(*func) <= usize::MAX,
        ensures
            final(out)@ == old(out)@ + fn_text(self.starts(), *func, depth as nat),
    {
        let ghost start = out@;
        Self::indent(out, depth);
        match &func.kind {
            FnKind::Local { .. } => self.fmt_local_fn(out, func, depth),
            FnKind::Extern { .. } => self.fmt_extern_fn(out, func, depth),
        }
        proof {
            reveal(fn_text);
            broadcast use crate::text::lemma_add_assoc;
            assert(out@ == start + fn_text(self.starts(), *func, depth as nat));
        }
    }

    fn fmt_local_fn(&self, out: &mut String, func: &Fn, depth: usize)
        requires
            self.wf(),
            depth + fn_nest(*func) <= usize::MAX,
            func.kind is Local,
        ensures
            final(out)@ == old(out)@ + local_fn_text(self.starts(), *func, depth as nat),
    {
        let ghost start = out@;
        let ghost st = self.starts();
        match &func.kind {
            FnKind::Local { params, body } => {
                push_str(out, "(function ");
                self.fmt_span(out, func.span);
                push_quoted(out, func.ident.inner.as_str());
                push_str(out, "\n");
                let ghost mid = out@;
                if params.len() != 0 {
                    Self::indent(out, depth + 1);
                    push_str(out, "params:");
                    self.fmt_local_params(out, params, depth + 2);
                    push_str(out, "\n");
                } else {
                    proof {
                        assert(out@ =~= mid + Seq::<char>::empty());
                    }
                }
                Self::indent(out, depth + 1);
                push_str(out, "returns:\n");
                self.fmt_ty(out, &func.return_ty, depth + 2);
                push_str(out, "\n");
                Self::indent(out, depth + 1);
                push_str(out, "body:\n");
                self.fmt_block(out, body, depth + 2);
                push_str(out, ")");
                proof {
                    reveal(local_fn_text);
                    broadcast use crate::text::lemma_add_assoc;
                    assert(out@ == start + local_fn_text(st, *func, depth as nat));
                }
            },
            FnKind::Extern { .. } => {},
        }
    }

    fn fmt_extern_fn(&self, out: &mut String, func: &Fn, depth: usize)
        requires
            self.wf(),
            depth + fn_nest(*func) <= usize::MAX,
            func.kind is Extern,
        ensures
            final(out)@ == old(out)@ + extern_fn_text(self.starts(), *func, depth as nat),
    {
        let ghost start = out@;
        let ghost st = self.starts();
        match &func.kind {
            FnKind::Extern { params, is_variadic } => {
                push_str(out, "(extern_function ");
                self.fmt_span(out, func.span);
                push_quoted(out, func.ident.inner.as_str());
                push_str(out, "\n");
                let ghost mid = out@;
                if params.len() != 0 || *is_variadic {
                    Self::indent(out, depth + 1);
                    push_str(out, "params:");
                    self.fmt_named_tys(out, "param", params, depth + 2);
                    let ghost mid2 = out@;
                    if *is_variadic {
                        push_str(out, "\n");
                        Self::indent(out, depth + 2);
                        push_str(out, "(variadic)");
                    } else {
                        proof {
                            assert(out@ =~= mid2 + Seq::<char>::empty());
                        }
                    }
                    push_str(out, "\n");
                } else {
                    proof {
                        assert(out@ =~= mid + Seq::<char>::empty());
                    }
                }
                Self::indent(out, depth + 1);
                push_str(out, "returns:\n");
                self.fmt_ty(out, &func.return_ty, depth + 2);
                push_str(out, ")");
                proof {
                    reveal(extern_fn_text);
                    broadcast use crate::text::lemma_add_assoc;
                    assert(out@ == start + extern_fn_text(st, *func, depth as nat));
                }
            },
            FnKind::Local { .. } => {},
        }
    }

    fn fmt_assoc(&self, out: &mut String, items: &Vec<AssocItem>, depth: usize)
        requires
            self.wf(),
            depth + assoc_nest(items@) <= usize::MAX,
        ensures
            final(out)@ == old(out)@ + assoc_text(self.starts(), items@, depth as nat),
    {
        let ghost start = out@;
        let ghost st = self.starts();
        let mut i: usize = 0;
        proof {
            reveal_with_fuel(assoc_text, 1);
            assert(items@.take(0) =~= Seq::<AssocItem>::empty());
            assert(start + assoc_text(st, items@.take(0), depth as nat) =~= start);
        }
        while i < items.len()
            invariant
                i <= items@.len(),
                self.wf(),
                st == self.starts(),
                depth + assoc_nest(items@) <= usize::MAX,
                out@ == start + assoc_text(st, items@.take(i as int), depth as nat),
            decreases items@.len() - i,
        {
            proof {
                lemma_assoc_nest(items@, i as int);
            }
            push_str(out, "\n");
            match &items[i] {
                AssocItem::Fn(func) => self.fmt_fn(out, func, depth),
            }
            proof {
                reveal_with_fuel(assoc_text, 1);
                let t = items@.take(i + 1);
                assert(t.drop_last() =~= items@.take(i as int));
                assert(t.last() == items@[i as int]);
                broadcast use crate::text::lemma_add_assoc;
                assert(out@ == start + assoc_text(st, t, depth as nat));
            }
            i += 1;
        }
        proof {
            assert(items@.take(items@.len() as int) =~= items@);
        }
    }

    fn fmt_item(&self, out: &mut String, item: &Item, depth: usize)
        requires
            self.wf(),
            depth + item_nest(*item) <= usize::MAX,
        ensures
            final(out)@ == old(out)@ + item_text(self.starts(), *item, depth as nat),
    {
        let ghost start = out@;
        let ghost st = self.starts();
        match item {
            Item::Use(use_) => {
                Self::indent(out, depth);
                push_str(out, "(use ");
                self.fmt_span(out, use_.span);
                let ghost mid = out@;
                if use_.is_extern {
                    push_str(out, " extern");
                } else {
                    proof {
                        assert(out@ =~= mid + Seq::<char>::empty());
                    }
                }
                push_quoted(out, use_.name.inner.as_str());
                push_str(out, ")");
            },
            Item::Fn(func) => self.fmt_fn(out, func, depth),
            Item::StructDef(def) => {
                Self::indent(out, depth);
                push_str(out, "(struct_def ");
                self.fmt_span(out, def.span);
                push_quoted(out, def.ident.inner.as_str());
                self.fmt_named_tys(out, "field", &def.fields, depth + 1);
                push_str(out, ")");
            },
            Item::Impl(imp) => {
                Self::indent(out, depth);
                push_str(out, "(impl ");
                self.fmt_span(out, imp.span);
                push_quoted(out, imp.ident.inner.as_str());
                self.fmt_assoc(out, &imp.items, depth + 1);
                push_str(out, ")");
            },
        }
        proof {
            reveal(item_text);
            broadcast use crate::text::lemma_add_assoc;
            assert(out@ == start + item_text(st, *item, depth as nat));
        }
    }

    /// Appends the printed module to `out`: `(module`, each item on a line of its own, and a
    /// closing `)` with a newline.
    pub fn fmt_module(&self, out: &mut String, module: &Module)
        requires
            self.wf(),
            1 + items_nest(module.items@) <= usize::MAX,
        ensures
            final(out)@ == old(out)@ + module_text(self.starts(), *module),
    {
        let ghost start = out@;
        let ghost st = self.starts();
        let items = &module.items;
        push_str(out, "(module");
        let ghost head = out@;
        let mut i: usize = 0;
        proof {
            reveal_with_fuel(items_text, 1);
            assert(items@.take(0) =~= Seq::<Item>::empty());
            assert(head + items_text(st, items@.take(0), 1) =~= head);
        }
        while i < items.len()
            invariant
                i <= items@.len(),
                self.wf(),
                st == self.starts(),
                1 + items_nest(items@) <= usize::MAX,
                out@ == head + items_text(st, items@.take(i as int), 1),
            decreases items@.len() - i,
        {
            proof {
                lemma_items_nest(items@, i as int);
            }
            push_str(out, "\n");
            self.fmt_item(out, &items[i], 1);
            proof {
                reveal_with_fuel(items_text, 1);
                let t = items@.take(i + 1);
                assert(t.drop_last() =~= items@.take(i as int));
                assert(t.last() == items@[i as int]);
                assert(out@ =~= head + items_text(st, t, 1));
            }
            i += 1;
        }
        proof {
            assert(items@.take(items@.len() as int) =~= items@);
        }
        push_str(out, ")\n");
        proof {
            reveal(module_text);
            broadcast use crate::text::lemma_add_assoc;
            assert(out@ == start + module_text(st, *module));
        }
    }
}

/// A module together with the source text it was parsed from, printed with positions taken
/// from that text.
pub struct DisplayModule<'a> {
    pub module: &'a Module,
    pub source: &'a str,
}

impl<'a> DisplayModule<'a> {
    /// The printed module.
    pub fn to_string(&self) -> (r: String)
        requires
            1 + items_nest(self.module.items@) <= usize::MAX,
        ensures
            r@ == module_text(line_starts_of(self.source.spec_bytes()), *self.module),
    {
        let printer = PrettyPrinter::new(self.source);
        let mut out = String::new();
        printer.fmt_module(&mut out, self.module);
        proof {
            assert(Seq::<char>::empty() + module_text(printer.starts(), *self.module) =~= module_text(
                printer.starts(),
                *self.module,
            ));
        }
        out
    }
}

} // verus!
