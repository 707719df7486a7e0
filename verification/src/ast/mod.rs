//! The syntax tree of a source file: items, statements, expressions and type expressions.
use vstd::prelude::*;

use crate::interner::Id;
use crate::lexer::source::Span;

pub mod depth;
pub mod fmt;

verus! {

/// The id of a node of the syntax tree.
#[derive(Debug, Clone, Copy, PartialEq, Eq, Hash, Structural)]
pub struct NodeId(pub u32);

impl NodeId {
    /// The id that stands for "no node".
    pub fn dummy() -> (r: Self)
        ensures
            r.0 == u32::MAX,
    {
        NodeId(u32::MAX)
    }
}

impl Id for NodeId {
    open spec fn index(&self) -> u32 {
        self.0
    }

    fn new(inner: u32) -> (r: Self) {
        NodeId(inner)
    }

    fn into_inner(self) -> (r: u32) {
        self.0
    }

    proof fn lemma_index_determines(a: Self, b: Self) {
    }
}

/// A name that a node of the tree binds or refers to.
#[derive(Debug, Clone)]
pub struct Ident {
    pub id: NodeId,
    pub span: Span,
    pub inner: String,
    pub is_extern: bool,
}

impl Ident {
    pub fn as_str(&self) -> (r: &str)
        ensures
            r@ == self.inner@,
    {
        self.inner.as_str()
    }
}

/// A name without a node of its own: a field, a parameter of an external function, a module.
#[derive(Debug, Clone)]
pub struct Name {
    pub span: Span,
    pub inner: String,
}

impl Name {
    pub fn as_str(&self) -> (r: &str)
        ensures
            r@ == self.inner@,
    {
        self.inner.as_str()
    }
}

#[derive(Debug, Clone, Copy, PartialEq, Eq, Structural)]
pub enum BinOpKind {
    /// `num == 10`
    Eq,
    /// `num != 10`
    Ne,
    /// `4 + 2`
    Add,
    /// `4 - 2`
    Sub,
    /// `3 * 9`
    Mul,
    /// `9 / 3`
    Div,
    /// `0.5 < 1`
    Lt,
    /// `1 > 0.5`
    Gt,
    /// `true and true`
    And,
    /// `false or true`
    Or,
}

#[derive(Debug, Clone, Copy, PartialEq, Eq, Structural)]
pub enum UnaryOpKind {
    Negate,
    Not,
}

/// An operator together with where it was written.
#[derive(Debug, Clone, Copy)]
pub struct Op<K> {
    pub span: Span,
    pub kind: K,
}

impl<K> Op<K> {
    pub fn new(kind: K, span: Span) -> (r: Self)
        ensures
            r.kind == kind,
            r.span == span,
    {
        Op { kind, span }
    }
}

/// A literal value within the source code.
#[derive(Debug, Clone)]
pub enum LiteralKind {
    Str(String),
    Int(i128),
    Bool(bool),
}

#[derive(Debug, Clone)]
pub struct Literal {
    pub id: NodeId,
    pub span: Span,
    pub kind: LiteralKind,
    /// The type a number literal's suffix names, if it has one.
    pub suffix: Option<LiteralSuffix>,
}

#[derive(Debug, Clone, Copy, PartialEq, Eq, Structural)]
pub enum IntTy {
    I8,
    I16,
    I32,
    I64,
}

#[derive(Debug, Clone, Copy, PartialEq, Eq, Structural)]
pub enum UIntTy {
    U8,
    U16,
    U32,
    U64,
}

#[derive(Debug, Clone, Copy, PartialEq, Eq, Structural)]
pub enum FloatTy {
    F16,
    F32,
    F64,
}

/// The type a number literal names after its digits, as in `100_u32`.
#[derive(Debug, Clone, Copy, PartialEq, Eq, Structural)]
pub enum LiteralSuffix {
    Int(IntTy),
    UInt(UIntTy),
    Float(FloatTy),
}

/// A type expression.
#[derive(Debug)]
pub struct Ty {
    pub id: NodeId,
    pub span: Span,
    pub kind: TyKind,
}

#[derive(Debug)]
pub enum TyKind {
    Int(IntTy),
    UInt(UIntTy),
    Bool,
    Str,
    List { inner: Box<Ty>, size: Option<usize> },
    Fn { params: Vec<Ty>, returns: Box<Ty>, is_extern: bool },
    Var(Ident),
}

/// A block of statements, for example the body of a function.
#[derive(Debug)]
pub struct Block {
    pub id: NodeId,
    pub span: Span,
    pub nodes: Vec<Stmnt>,
}

impl Block {
    /// The statements of the block, with a trailing expression statement taken apart as the
    /// value of the block.
    pub fn split_off_returning(&self) -> (r: (Vec<&Stmnt>, Option<&Expr>))
        ensures
            ({
                let n = self.nodes@.len();
                let returning = n > 0 && self.nodes@[n - 1] is Expr;
                let kept = if returning {
                    n - 1
                } else {
                    n as int
                };
                &&& r.0@.len() == kept
                &&& forall|i: int| 0 <= i < kept ==> *r.0@[i] == self.nodes@[i]
                &&& match r.1 {
                    Some(e) => returning && self.nodes@[n - 1] == Stmnt::Expr(*e),
                    None => !returning,
                }
            }),
    {
        let count = self.nodes.len();
        let mut stmnts: Vec<&Stmnt> = Vec::new();
        let mut idx: usize = 0;
        while idx < count
            invariant
                count == self.nodes@.len(),
                idx <= count,
                stmnts@.len() == idx,
                forall|i: int| 0 <= i < idx ==> *stmnts@[i] == self.nodes@[i],
                idx == count ==> !(count > 0 && self.nodes@[count - 1] is Expr),
            decreases count - idx,
        {
            let stmnt = &self.nodes[idx];
            if idx == count - 1 {
                if let Stmnt::Expr(expr) = stmnt {
                    return (stmnts, Some(expr));
                }
            }
            stmnts.push(stmnt);
            idx += 1;
        }
        (stmnts, None)
    }
}

#[derive(Debug)]
pub struct IfElse {
    pub id: NodeId,
    pub span: Span,
    pub condition: Box<Expr>,
    pub consequence: Block,
    pub alternative: Option<Block>,
}

#[derive(Debug)]
pub struct List {
    pub id: NodeId,
    pub span: Span,
    pub items: Vec<Expr>,
}

#[derive(Debug)]
pub struct Let {
    pub span: Span,
    pub mutable: bool,
    pub ident: Ident,
    pub ty: Option<Ty>,
    pub val: Expr,
}

#[derive(Debug)]
pub struct Ret {
    pub span: Span,
    pub val: Expr,
}

#[derive(Debug)]
pub struct Unary {
    pub id: NodeId,
    pub span: Span,
    pub op: Op<UnaryOpKind>,
    pub rhs: Box<Expr>,
}

#[derive(Debug)]
pub struct BinOp {
    pub id: NodeId,
    pub span: Span,
    pub lhs: Box<Expr>,
    pub op: Op<BinOpKind>,
    pub rhs: Box<Expr>,
}

#[derive(Debug)]
pub struct Call {
    pub id: NodeId,
    pub span: Span,
    pub func: Box<Expr>,
    pub params: Vec<Expr>,
}

#[derive(Debug)]
pub struct Index {
    pub id: NodeId,
    pub span: Span,
    pub expr: Box<Expr>,
    pub idx: Box<Expr>,
}

#[derive(Debug)]
#[allow(inconsistent_fields)]
pub enum FnKind {
    Local { params: Vec<(Ident, Ty)>, body: Block },
    Extern { params: Vec<(Name, Ty)>, is_variadic: bool },
}

/// A parameter of a function, whichever kind of function it belongs to.
pub struct Param<'a> {
    pub key: &'a str,
    pub ty: &'a Ty,
    pub node_id: Option<NodeId>,
}

#[derive(Debug)]
pub struct Fn {
    pub span: Span,
    pub ident: Ident,
    pub kind: FnKind,
    pub return_ty: Ty,
}

impl Fn {
    /// The parameters in order: their names, types and, for a local function, the ids of the
    /// identifiers that bind them.
    pub fn params(&self) -> (r: Vec<Param<'_>>)
        ensures
            match self.kind {
                FnKind::Local { params, .. } => {
                    &&& r@.len() == params@.len()
                    &&& forall|i: int|
                        0 <= i < params@.len() ==> {
                            &&& (#[trigger] r@[i]).key@ == params@[i].0.inner@
                            &&& *r@[i].ty == params@[i].1
                            &&& r@[i].node_id == Some(params@[i].0.id)
                        }
                },
                FnKind::Extern { params, .. } => {
                    &&& r@.len() == params@.len()
                    &&& forall|i: int|
                        0 <= i < params@.len() ==> {
                            &&& (#[trigger] r@[i]).key@ == params@[i].0.inner@
                            &&& *r@[i].ty == params@[i].1
                            &&& r@[i].node_id.is_none()
                        }
                },
            },
    {
        let mut out: Vec<Param<'_>> = Vec::new();
        match &self.kind {
            FnKind::Local { params, .. } => {
                let mut i: usize = 0;
                while i < params.len()
                    invariant
                        i <= params@.len(),
                        out@.len() == i,
                        forall|j: int|
                            0 <= j < i ==> {
                                &&& (#[trigger] out@[j]).key@ == params@[j].0.inner@
                                &&& *out@[j].ty == params@[j].1
                                &&& out@[j].node_id == Some(params@[j].0.id)
                            },
                    decreases params@.len() - i,
                {
                    let (ident, ty) = &params[i];
                    out.push(Param { key: ident.inner.as_str(), ty, node_id: Some(ident.id) });
                    i += 1;
                }
            },
            FnKind::Extern { params, .. } => {
                let mut i: usize = 0;
                while i < params.len()
                    invariant
                        i <= params@.len(),
                        out@.len() == i,
                        forall|j: int|
                            0 <= j < i ==> {
                                &&& (#[trigger] out@[j]).key@ == params@[j].0.inner@
                                &&& *out@[j].ty == params@[j].1
                                &&& out@[j].node_id.is_none()
                            },
                    decreases params@.len() - i,
                {
                    let (name, ty) = &params[i];
                    out.push(Param { key: name.inner.as_str(), ty, node_id: None });
                    i += 1;
                }
            },
        }
        out
    }

    /// The body of a local function; an external function has none.
    pub fn body(&self) -> (r: Option<&Block>)
        ensures
            match self.kind {
                FnKind::Local { body, .. } => r == Some(&body),
                FnKind::Extern { .. } => r.is_none(),
            },
    {
        match &self.kind {
            FnKind::Local { body, .. } => Some(body),
            FnKind::Extern { .. } => None,
        }
    }
}

#[derive(Debug)]
pub struct Use {
    pub span: Span,
    pub is_extern: bool,
    pub name: Name,
}

#[derive(Debug)]
pub struct StructDef {
    pub span: Span,
    pub ident: Ident,
    pub fields: Vec<(Name, Ty)>,
}

#[derive(Debug)]
pub enum AssocItem {
    Fn(Fn),
}

impl AssocItem {
    pub fn ident(&self) -> (r: &Ident)
        ensures
            match self {
                AssocItem::Fn(func) => *r == func.ident,
            },
    {
        match self {
            AssocItem::Fn(func) => &func.ident,
        }
    }
}

#[derive(Debug)]
pub struct Impl {
    pub span: Span,
    pub ident: Ident,
    pub items: Vec<AssocItem>,
}

#[derive(Debug)]
pub struct MemberAccess {
    pub id: NodeId,
    pub span: Span,
    pub lhs: Box<Expr>,
    pub rhs: Name,
}

#[derive(Debug)]
pub struct Constructor {
    pub id: NodeId,
    pub span: Span,
    pub ident: Ident,
    pub fields: Vec<(Name, Expr)>,
}

#[derive(Debug)]
pub struct Assign {
    pub id: NodeId,
    pub span: Span,
    pub lhs: Box<Expr>,
    pub rhs: Box<Expr>,
}

#[derive(Debug)]
pub struct Break {
    pub id: NodeId,
    pub span: Span,
    pub label: Option<Name>,
    pub val: Option<Box<Expr>>,
}

#[derive(Debug)]
pub struct Continue {
    pub id: NodeId,
    pub span: Span,
    pub label: Option<Name>,
}

#[derive(Debug)]
pub struct While {
    pub id: NodeId,
    pub span: Span,
    pub label: Option<Name>,
    pub condition: Box<Expr>,
    pub consequence: Block,
}

#[derive(Debug)]
pub enum Expr {
    Ident(Ident),
    Literal(Literal),
    Block(Block),
    BinOp(BinOp),
    Unary(Unary),
    Call(Call),
    Index(Index),
    IfElse(IfElse),
    List(List),
    Constructor(Constructor),
    MemberAccess(MemberAccess),
    Ref(Box<Expr>),
    Assign(Assign),
    Break(Break),
    Continue(Continue),
    While(While),
}

/// Where an expression was written; a reference is where the referenced expression is.
pub open spec fn expr_span(e: Expr) -> Span
    decreases e,
{
    match e {
        Expr::Ident(ident) => ident.span,
        Expr::Literal(literal) => literal.span,
        Expr::Block(block) => block.span,
        Expr::BinOp(bin_op) => bin_op.span,
        Expr::Unary(unary) => unary.span,
        Expr::Call(call) => call.span,
        Expr::Index(index) => index.span,
        Expr::IfElse(if_else) => if_else.span,
        Expr::List(list) => list.span,
        Expr::Constructor(ctor) => ctor.span,
        Expr::MemberAccess(access) => access.span,
        Expr::Ref(inner) => expr_span(*inner),
        Expr::Assign(assign) => assign.span,
        Expr::While(inner) => inner.span,
        Expr::Break(inner) => inner.span,
        Expr::Continue(inner) => inner.span,
    }
}

/// The id of an expression's node; a reference has the id of the referenced expression.
pub open spec fn expr_id(e: Expr) -> NodeId
    decreases e,
{
    match e {
        Expr::Ident(ident) => ident.id,
        Expr::Literal(literal) => literal.id,
        Expr::Block(block) => block.id,
        Expr::BinOp(bin_op) => bin_op.id,
        Expr::Unary(unary) => unary.id,
        Expr::Call(call) => call.id,
        Expr::Index(index) => index.id,
        Expr::IfElse(if_else) => if_else.id,
        Expr::List(list) => list.id,
        Expr::Constructor(ctor) => ctor.id,
        Expr::MemberAccess(access) => access.id,
        Expr::Ref(inner) => expr_id(*inner),
        Expr::Assign(assign) => assign.id,
        Expr::While(inner) => inner.id,
        Expr::Break(inner) => inner.id,
        Expr::Continue(inner) => inner.id,
    }
}

impl Expr {
    pub fn span(&self) -> (r: Span)
        ensures
            r == expr_span(*self),
        decreases self,
    {
        match self {
            Expr::Ident(ident) => ident.span,
            Expr::Literal(literal) => literal.span,
            Expr::Block(block) => block.span,
            Expr::BinOp(bin_op) => bin_op.span,
            Expr::Unary(unary) => unary.span,
            Expr::Call(call) => call.span,
            Expr::Index(index) => index.span,
            Expr::IfElse(if_else) => if_else.span,
            Expr::List(list) => list.span,
            Expr::Constructor(ctor) => ctor.span,
            Expr::MemberAccess(access) => access.span,
            Expr::Ref(inner) => inner.span(),
            Expr::Assign(assign) => assign.span,
            Expr::While(inner) => inner.span,
            Expr::Break(inner) => inner.span,
            Expr::Continue(inner) => inner.span,
        }
    }

    pub fn id(&self) -> (r: NodeId)
        ensures
            r == expr_id(*self),
        decreases self,
    {
        match self {
            Expr::Ident(ident) => ident.id,
            Expr::Literal(literal) => literal.id,
            Expr::Block(block) => block.id,
            Expr::BinOp(bin_op) => bin_op.id,
            Expr::Unary(unary) => unary.id,
            Expr::Call(call) => call.id,
            Expr::Index(index) => index.id,
            Expr::IfElse(if_else) => if_else.id,
            Expr::List(list) => list.id,
            Expr::Constructor(ctor) => ctor.id,
            Expr::MemberAccess(access) => access.id,
            Expr::Ref(inner) => inner.id(),
            Expr::Assign(assign) => assign.id,
            Expr::While(inner) => inner.id,
            Expr::Break(inner) => inner.id,
            Expr::Continue(inner) => inner.id,
        }
    }
}

#[derive(Debug)]
pub enum Stmnt {
    Let(Let),
    Ret(Ret),
    Expr(Expr),
}

impl Stmnt {
    pub fn span(&self) -> (r: Span)
        ensures
            r == match *self {
                Stmnt::Let(inner) => inner.span,
                Stmnt::Ret(inner) => inner.span,
                Stmnt::Expr(inner) => expr_span(inner),
            },
    {
        match self {
            Stmnt::Let(inner) => inner.span,
            Stmnt::Ret(inner) => inner.span,
            Stmnt::Expr(inner) => inner.span(),
        }
    }
}

#[derive(Debug)]
pub enum Item {
    Use(Use),
    Fn(Fn),
    StructDef(StructDef),
    Impl(Impl),
}

/// A parsed source file.
#[derive(Debug)]
pub struct Module {
    pub items: Vec<Item>,
}

} // verus!
