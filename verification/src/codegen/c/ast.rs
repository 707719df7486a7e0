//! A small C syntax tree and its rendering as compact C source text.
use vstd::prelude::*;

use crate::ext::Boxed;
use crate::text::{decimal, push_char, push_decimal_i128, push_str};

verus! {

#[derive(Debug)]
pub enum CType {
    Int8,
    Int16,
    Int32,
    Int64,
    UInt8,
    UInt16,
    UInt32,
    UInt64,
    Bool,
    CharPtr,
    Void,
    Named(String),
    Ptr(Box<CType>),
}

impl CType {
    pub fn named(name: String) -> (r: Self)
        ensures
            r matches CType::Named(n) && n@ == name@,
    {
        Self::Named(name)
    }

    pub fn ptr(inner: CType) -> (r: Self)
        ensures
            r == CType::Ptr(Box::new(inner)),
    {
        Self::Ptr(inner.boxed())
    }

    /// The C spelling of the type.
    pub open spec fn spec_render(self) -> Seq<char>
        decreases self,
    {
        match self {
            CType::Int8 => "int8_t"@,
            CType::Int16 => "int16_t"@,
            CType::Int32 => "int32_t"@,
            CType::Int64 => "int64_t"@,
            CType::UInt8 => "uint8_t"@,
            CType::UInt16 => "uint16_t"@,
            CType::UInt32 => "uint32_t"@,
            CType::UInt64 => "uint64_t"@,
            CType::Bool => "bool"@,
            CType::CharPtr => "char *"@,
            CType::Void => "void"@,
            CType::Named(name) => name@,
            CType::Ptr(inner) => inner.spec_render() + " *"@,
        }
    }

    /// Appends the C spelling of the type to `buf`.
    pub fn render(&self, buf: &mut String)
        ensures
            final(buf)@ == old(buf)@ + self.spec_render(),
        decreases self,
    {
        match self {
            CType::Int8 => push_str(buf, "int8_t"),
            CType::Int16 => push_str(buf, "int16_t"),
            CType::Int32 => push_str(buf, "int32_t"),
            CType::Int64 => push_str(buf, "int64_t"),
            CType::UInt8 => push_str(buf, "uint8_t"),
            CType::UInt16 => push_str(buf, "uint16_t"),
            CType::UInt32 => push_str(buf, "uint32_t"),
            CType::UInt64 => push_str(buf, "uint64_t"),
            CType::Bool => push_str(buf, "bool"),
            CType::CharPtr => push_str(buf, "char *"),
            CType::Void => push_str(buf, "void"),
            CType::Named(name) => push_str(buf, name.as_str()),
            CType::Ptr(inner) => {
                inner.render(buf);
                push_str(buf, " *");
                proof {
                    assert(old(buf)@ + self.spec_render() =~= old(buf)@ + inner.spec_render()
                        + " *"@);
                }
            },
        }
    }

    /// The C spelling of the type.
    pub fn to_string(&self) -> (r: String)
        ensures
            r@ == self.spec_render(),
    {
        let mut buf = String::new();
        self.render(&mut buf);
        proof {
            assert(Seq::<char>::empty() + self.spec_render() =~= self.spec_render());
        }
        buf
    }
}

#[derive(Debug)]
pub enum CExpr {
    Ident(String),
    IntLit(i128),
    StrLit(String),
    BinOp { lhs: Box<CExpr>, op: &'static str, rhs: Box<CExpr> },
    Prefix { op: &'static str, expr: Box<CExpr> },
    Call { func: Box<CExpr>, args: Vec<CExpr> },
    Member { expr: Box<CExpr>, field: String },
    CompoundLit { ty: String, fields: Vec<(String, CExpr)> },
    StmtExpr(Vec<CStmt>),
    Sizeof(CType),
    AddrOf(Box<CExpr>),
}

#[derive(Debug)]
pub enum CStmt {
    VarDecl { ty: CType, name: String, init: Option<CExpr> },
    Return(CExpr),
    Expr(CExpr),
    StmntExpr(CExpr),
    If { cond: CExpr, then: Vec<CStmt>, else_: Option<Vec<CStmt>> },
}

/// The C text of an expression.
pub open spec fn expr_text(e: CExpr) -> Seq<char>
    decreases e,
{
    match e {
        CExpr::Ident(name) => name@,
        CExpr::IntLit(val) => decimal(val as int),
        CExpr::StrLit(val) => "\""@ + val@ + "\""@,
        CExpr::BinOp { lhs, op, rhs } => expr_text(*lhs) + op@ + expr_text(*rhs),
        CExpr::Prefix { op, expr } => op@ + expr_text(*expr),
        CExpr::Call { func, args } => expr_text(*func) + "("@ + args_text(args@) + ")"@,
        CExpr::Member { expr, field } => expr_text(*expr) + "."@ + field@,
        CExpr::CompoundLit { ty, fields } => "("@ + ty@ + "){"@ + fields_text(fields@) + "}"@,
        CExpr::StmtExpr(stmts) => "({"@ + stmts_text(stmts@) + "})"@,
        CExpr::Sizeof(ty) => "sizeof("@ + ty.spec_render() + ")"@,
        CExpr::AddrOf(expr) => "&"@ + expr_text(*expr),
    }
}

/// Call arguments, separated by commas.
pub open spec fn args_text(args: Seq<CExpr>) -> Seq<char>
    decreases args,
{
    if args.len() == 0 {
        Seq::empty()
    } else if args.len() == 1 {
        expr_text(args[0])
    } else {
        args_text(args.drop_last()) + ","@ + expr_text(args.last())
    }
}

/// Designated initialisers, each followed by a comma.
pub open spec fn fields_text(fields: Seq<(String, CExpr)>) -> Seq<char>
    decreases fields,
{
    if fields.len() == 0 {
        Seq::empty()
    } else {
        fields_text(fields.drop_last()) + "."@ + fields.last().0@ + "="@ + expr_text(
            fields.last().1,
        ) + ","@
    }
}

/// Statements, one after the other.
pub open spec fn stmts_text(stmts: Seq<CStmt>) -> Seq<char>
    decreases stmts,
{
    if stmts.len() == 0 {
        Seq::empty()
    } else {
        stmts_text(stmts.drop_last()) + stmt_text(stmts.last())
    }
}

/// The C text of a statement.
pub open spec fn stmt_text(s: CStmt) -> Seq<char>
    decreases s,
{
    match s {
        CStmt::VarDecl { ty, name, init } => match init {
            Some(expr) => ty.spec_render() + " "@ + name@ + "="@ + expr_text(expr) + ";"@,
            None => ty.spec_render() + " "@ + name@ + ";"@,
        },
        CStmt::Return(expr) => "return "@ + expr_text(expr) + ";"@,
        CStmt::Expr(expr) => expr_text(expr) + ";"@,
        CStmt::StmntExpr(expr) => "({"@ + expr_text(expr) + "});"@,
        CStmt::If { cond, then, else_ } => "if("@ + expr_text(cond) + "){"@ + stmts_text(then@)
            + "}"@ + match else_ {
            Some(else_stmts) => "else{"@ + stmts_text(else_stmts@) + "}"@,
            None => Seq::empty(),
        },
    }
}

impl CExpr {
    pub fn ident(name: String) -> (r: Self)
        ensures
            r matches CExpr::Ident(n) && n@ == name@,
    {
        Self::Ident(name)
    }

    pub fn int_lit(val: i128) -> (r: Self)
        ensures
            r == CExpr::IntLit(val),
    {
        Self::IntLit(val)
    }

    pub fn str(val: String) -> (r: Self)
        ensures
            r matches CExpr::StrLit(v) && v@ == val@,
    {
        Self::StrLit(val)
    }

    pub fn call(func: CExpr, args: Vec<CExpr>) -> (r: Self)
        ensures
            r == (CExpr::Call { func: Box::new(func), args }),
    {
        Self::Call { func: func.boxed(), args }
    }

    pub fn member(self, field: String) -> (r: Self)
        ensures
            r matches CExpr::Member { expr, field: f } && *expr == self && f@ == field@,
    {
        Self::Member { expr: self.boxed(), field }
    }

    pub fn binop(self, op: &'static str, rhs: CExpr) -> (r: Self)
        ensures
            r == (CExpr::BinOp { lhs: Box::new(self), op, rhs: Box::new(rhs) }),
    {
        Self::BinOp { lhs: self.boxed(), op, rhs: rhs.boxed() }
    }

    pub fn prefix(op: &'static str, expr: CExpr) -> (r: Self)
        ensures
            r == (CExpr::Prefix { op, expr: Box::new(expr) }),
    {
        Self::Prefix { op, expr: expr.boxed() }
    }

    pub fn addr_of(self) -> (r: Self)
        ensures
            r == CExpr::AddrOf(Box::new(self)),
    {
        Self::AddrOf(self.boxed())
    }

    pub fn compound_lit(ty: String, fields: Vec<(String, CExpr)>) -> (r: Self)
        ensures
            r matches CExpr::CompoundLit { ty: t, fields: f } && t@ == ty@ && f == fields,
    {
        Self::CompoundLit { ty, fields }
    }

    pub fn sizeof(ty: CType) -> (r: Self)
        ensures
            r == CExpr::Sizeof(ty),
    {
        Self::Sizeof(ty)
    }

    pub fn stmt_expr(stmts: Vec<CStmt>) -> (r: Self)
        ensures
            r == CExpr::StmtExpr(stmts),
    {
        Self::StmtExpr(stmts)
    }

    /// Appends the C text of the expression to `buf`.
    pub fn render(&self, buf: &mut String)
        ensures
            final(buf)@ == old(buf)@ + expr_text(*self),
        decreases self,
    {
        let ghost start = buf@;
        match self {
            CExpr::Ident(name) => push_str(buf, name.as_str()),
            CExpr::IntLit(val) => push_decimal_i128(buf, *val),
            CExpr::StrLit(val) => {
                push_str(buf, "\"");
                push_str(buf, val.as_str());
                push_str(buf, "\"");
            },
            CExpr::BinOp { lhs, op, rhs } => {
                lhs.render(buf);
                push_str(buf, op);
                rhs.render(buf);
            },
            CExpr::Prefix { op, expr } => {
                push_str(buf, op);
                expr.render(buf);
            },
            CExpr::Call { func, args } => {
                func.render(buf);
                push_str(buf, "(");
                render_args(args, buf);
                push_str(buf, ")");
            },
            CExpr::Member { expr, field } => {
                expr.render(buf);
                push_str(buf, ".");
                push_str(buf, field.as_str());
            },
            CExpr::CompoundLit { ty, fields } => {
                push_str(buf, "(");
                push_str(buf, ty.as_str());
                push_str(buf, "){");
                render_fields(fields, buf);
                push_str(buf, "}");
            },
            CExpr::StmtExpr(stmts) => {
                push_str(buf, "({");
                render_stmts(stmts, buf);
                push_str(buf, "})");
            },
            CExpr::Sizeof(ty) => {
                push_str(buf, "sizeof(");
                ty.render(buf);
                push_str(buf, ")");
            },
            CExpr::AddrOf(expr) => {
                push_str(buf, "&");
                expr.render(buf);
            },
        }
        proof {
            assert(buf@ =~= start + expr_text(*self));
        }
    }

    /// The C text of the expression.
    pub fn to_string(&self) -> (r: String)
        ensures
            r@ == expr_text(*self),
    {
        let mut buf = String::new();
        self.render(&mut buf);
        proof {
            assert(Seq::<char>::empty() + expr_text(*self) =~= expr_text(*self));
        }
        buf
    }
}

fn render_args(args: &Vec<CExpr>, buf: &mut String)
    ensures
        final(buf)@ == old(buf)@ + args_text(args@),
    decreases args, 0nat,
{
    let ghost start = buf@;
    let mut i: usize = 0;
    proof {
        assert(args@.take(0) =~= Seq::<CExpr>::empty());
        assert(start + args_text(args@.take(0)) =~= start);
    }
    while i < args.len()
        invariant
            i <= args@.len(),
            buf@ == start + args_text(args@.take(i as int)),
        decreases args@.len() - i,
    {
        if i > 0 {
            push_str(buf, ",");
        }
        args[i].render(buf);
        proof {
            let t = args@.take(i + 1);
            assert(t.drop_last() =~= args@.take(i as int));
            assert(t.last() == args@[i as int]);
            if i == 0 {
                assert(buf@ =~= start + args_text(t));
            } else {
                assert(buf@ =~= start + args_text(t));
            }
        }
        i += 1;
    }
    proof {
        assert(args@.take(args@.len() as int) =~= args@);
    }
}

fn render_fields(fields: &Vec<(String, CExpr)>, buf: &mut String)
    ensures
        final(buf)@ == old(buf)@ + fields_text(fields@),
    decreases fields, 0nat,
{
    let ghost start = buf@;
    let mut i: usize = 0;
    proof {
        assert(fields@.take(0) =~= Seq::<(String, CExpr)>::empty());
        assert(start + fields_text(fields@.take(0)) =~= start);
    }
    while i < fields.len()
        invariant
            i <= fields@.len(),
            buf@ == start + fields_text(fields@.take(i as int)),
        decreases fields@.len() - i,
    {
        let (name, val) = &fields[i];
        push_str(buf, ".");
        push_str(buf, name.as_str());
        push_str(buf, "=");
        val.render(buf);
        push_str(buf, ",");
        proof {
            let t = fields@.take(i + 1);
            assert(t.drop_last() =~= fields@.take(i as int));
            assert(t.last() == fields@[i as int]);
            assert(buf@ =~= start + fields_text(t));
        }
        i += 1;
    }
    proof {
        assert(fields@.take(fields@.len() as int) =~= fields@);
    }
}

fn render_stmts(stmts: &Vec<CStmt>, buf: &mut String)
    ensures
        final(buf)@ == old(buf)@ + stmts_text(stmts@),
    decreases stmts, 0nat,
{
    let ghost start = buf@;
    let mut i: usize = 0;
    proof {
        assert(stmts@.take(0) =~= Seq::<CStmt>::empty());
        assert(start + stmts_text(stmts@.take(0)) =~= start);
    }
    while i < stmts.len()
        invariant
            i <= stmts@.len(),
            buf@ == start + stmts_text(stmts@.take(i as int)),
        decreases stmts@.len() - i,
    {
        stmts[i].render(buf);
        proof {
            let t = stmts@.take(i + 1);
            assert(t.drop_last() =~= stmts@.take(i as int));
            assert(t.last() == stmts@[i as int]);
            assert(buf@ =~= start + stmts_text(t));
        }
        i += 1;
    }
    proof {
        assert(stmts@.take(stmts@.len() as int) =~= stmts@);
    }
}

impl CStmt {
    pub fn var(ty: CType, name: String, init: CExpr) -> (r: Self)
        ensures
            r matches CStmt::VarDecl { ty: t, name: n, init: i } && t == ty && n@ == name@ && i
                == Some(init),
    {
        Self::VarDecl { ty, name, init: Some(init) }
    }

    pub fn ret(expr: CExpr) -> (r: Self)
        ensures
            r == CStmt::Return(expr),
    {
        Self::Return(expr)
    }

    pub fn expr(expr: CExpr) -> (r: Self)
        ensures
            r == CStmt::Expr(expr),
    {
        Self::Expr(expr)
    }

    pub fn if_(cond: CExpr, then: Vec<CStmt>) -> (r: Self)
        ensures
            r == (CStmt::If { cond, then, else_: None }),
    {
        Self::If { cond, then, else_: None }
    }

    pub fn if_else(cond: CExpr, then: Vec<CStmt>, else_: Vec<CStmt>) -> (r: Self)
        ensures
            r == (CStmt::If { cond, then, else_: Some(else_) }),
    {
        Self::If { cond, then, else_: Some(else_) }
    }

    /// Appends the C text of the statement to `buf`.
    pub fn render(&self, buf: &mut String)
        ensures
            final(buf)@ == old(buf)@ + stmt_text(*self),
        decreases self,
    {
        let ghost start = buf@;
        match self {
            CStmt::VarDecl { ty, name, init } => {
                ty.render(buf);
                push_str(buf, " ");
                push_str(buf, name.as_str());
                match init {
                    Some(expr) => {
                        push_str(buf, "=");
                        expr.render(buf);
                        push_str(buf, ";");
                    },
                    None => push_str(buf, ";"),
                }
            },
            CStmt::Return(expr) => {
                push_str(buf, "return ");
                expr.render(buf);
                push_str(buf, ";");
            },
            CStmt::Expr(expr) => {
                expr.render(buf);
                push_str(buf, ";");
            },
            CStmt::StmntExpr(expr) => {
                push_str(buf, "({");
                expr.render(buf);
                push_str(buf, "});");
            },
            CStmt::If { cond, then, else_ } => {
                push_str(buf, "if(");
                cond.render(buf);
                push_str(buf, "){");
                render_stmts(then, buf);
                push_str(buf, "}");
                match else_ {
                    Some(else_stmts) => {
                        push_str(buf, "else{");
                        render_stmts(else_stmts, buf);
                        push_str(buf, "}");
                    },
                    None => {},
                }
            },
        }
        proof {
            assert(buf@ =~= start + stmt_text(*self));
        }
    }

    /// The C text of the statement.
    pub fn to_string(&self) -> (r: String)
        ensures
            r@ == stmt_text(*self),
    {
        let mut buf = String::new();
        self.render(&mut buf);
        proof {
            assert(Seq::<char>::empty() + stmt_text(*self) =~= stmt_text(*self));
        }
        buf
    }
}

#[derive(Debug)]
pub enum CItem {
    Include(CInclude),
    TypedefStruct { name: String, fields: Vec<(CType, String)> },
    FnDef { ret: CType, name: String, params: Vec<(CType, String)>, body: Vec<CStmt> },
}

#[derive(Debug)]
pub enum CInclude {
    System(String),
    Local(String),
}

/// Struct members, each a type, a space, a name and a semicolon.
pub open spec fn members_text(fields: Seq<(CType, String)>) -> Seq<char>
    decreases fields.len(),
{
    if fields.len() == 0 {
        Seq::empty()
    } else {
        members_text(fields.drop_last()) + fields.last().0.spec_render() + " "@
            + fields.last().1@ + ";"@
    }
}

/// Function parameters, each a type, a space and a name, separated by commas.
pub open spec fn params_text(params: Seq<(CType, String)>) -> Seq<char>
    decreases params.len(),
{
    if params.len() == 0 {
        Seq::empty()
    } else {
        params_text(params.drop_last()) + (if params.len() > 1 {
            ","@
        } else {
            Seq::empty()
        }) + params.last().0.spec_render() + " "@ + params.last().1@
    }
}

/// The C text of a top-level item.
pub open spec fn item_text(item: CItem) -> Seq<char> {
    match item {
        CItem::Include(CInclude::System(path)) => "#include <"@ + path@ + ">\n"@,
        CItem::Include(CInclude::Local(path)) => "#include \""@ + path@ + "\"\n"@,
        CItem::TypedefStruct { name, fields } => "typedef struct "@ + name@ + "{"@ + members_text(
            fields@,
        ) + "}"@ + name@ + ";"@,
        CItem::FnDef { ret, name, params, body } => ret.spec_render() + " "@ + name@ + "("@
            + params_text(params@) + "){"@ + stmts_text(body@) + "}"@,
    }
}

/// The items of a translation unit, one after the other.
pub open spec fn items_text(items: Seq<CItem>) -> Seq<char>
    decreases items.len(),
{
    if items.len() == 0 {
        Seq::empty()
    } else {
        items_text(items.drop_last()) + item_text(items.last())
    }
}

impl CItem {
    pub fn include_system(path: String) -> (r: Self)
        ensures
            r matches CItem::Include(CInclude::System(p)) && p@ == path@,
    {
        Self::Include(CInclude::System(path))
    }

    pub fn include_local(path: String) -> (r: Self)
        ensures
            r matches CItem::Include(CInclude::Local(p)) && p@ == path@,
    {
        Self::Include(CInclude::Local(path))
    }

    pub fn typedef_struct(name: String, fields: Vec<(CType, String)>) -> (r: Self)
        ensures
            r matches CItem::TypedefStruct { name: n, fields: f } && n@ == name@ && f == fields,
    {
        Self::TypedefStruct { name, fields }
    }

    pub fn fn_def(ret: CType, name: String, params: Vec<(CType, String)>, body: Vec<CStmt>) -> (r:
        Self)
        ensures
            r matches CItem::FnDef { ret: t, name: n, params: p, body: b } && t == ret && n@
                == name@ && p == params && b == body,
    {
        Self::FnDef { ret, name, params, body }
    }

    /// Appends the C text of the item to `buf`.
    pub fn render(&self, buf: &mut String)
        ensures
            final(buf)@ == old(buf)@ + item_text(*self),
    {
        let ghost start = buf@;
        match self {
            CItem::Include(CInclude::System(path)) => {
                push_str(buf, "#include <");
                push_str(buf, path.as_str());
                push_str(buf, ">\n");
            },
            CItem::Include(CInclude::Local(path)) => {
                push_str(buf, "#include \"");
                push_str(buf, path.as_str());
                push_str(buf, "\"\n");
            },
            CItem::TypedefStruct { name, fields } => {
                push_str(buf, "typedef struct ");
                push_str(buf, name.as_str());
                push_str(buf, "{");
                let ghost mid = buf@;
                let mut i: usize = 0;
                proof {
                    assert(fields@.take(0) =~= Seq::<(CType, String)>::empty());
                    assert(mid + members_text(fields@.take(0)) =~= mid);
                }
                while i < fields.len()
                    invariant
                        i <= fields@.len(),
                        buf@ == mid + members_text(fields@.take(i as int)),
                    decreases fields@.len() - i,
                {
                    let (ty, field_name) = &fields[i];
                    ty.render(buf);
                    push_str(buf, " ");
                    push_str(buf, field_name.as_str());
                    push_str(buf, ";");
                    proof {
                        let t = fields@.take(i + 1);
                        assert(t.drop_last() =~= fields@.take(i as int));
                        assert(t.last() == fields@[i as int]);
                        assert(buf@ =~= mid + members_text(t));
                    }
                    i += 1;
                }
                proof {
                    assert(fields@.take(fields@.len() as int) =~= fields@);
                }
                push_str(buf, "}");
                push_str(buf, name.as_str());
                push_str(buf, ";");
            },
            CItem::FnDef { ret, name, params, body } => {
                ret.render(buf);
                push_str(buf, " ");
                push_str(buf, name.as_str());
                push_str(buf, "(");
                let ghost mid = buf@;
                let mut i: usize = 0;
                proof {
                    assert(params@.take(0) =~= Seq::<(CType, String)>::empty());
                    assert(mid + params_text(params@.take(0)) =~= mid);
                }
                while i < params.len()
                    invariant
                        i <= params@.len(),
                        buf@ == mid + params_text(params@.take(i as int)),
                    decreases params@.len() - i,
                {
                    if i > 0 {
                        push_str(buf, ",");
                    }
                    let (ty, param_name) = &params[i];
                    ty.render(buf);
                    push_str(buf, " ");
                    push_str(buf, param_name.as_str());
                    proof {
                        let t = params@.take(i + 1);
                        assert(t.drop_last() =~= params@.take(i as int));
                        assert(t.last() == params@[i as int]);
                        assert(buf@ =~= mid + params_text(t));
                    }
                    i += 1;
                }
                proof {
                    assert(params@.take(params@.len() as int) =~= params@);
                }
                push_str(buf, "){");
                render_stmts(body, buf);
                push_str(buf, "}");
            },
        }
        proof {
            assert(buf@ =~= start + item_text(*self));
        }
    }

    /// The C text of the item.
    pub fn to_string(&self) -> (r: String)
        ensures
            r@ == item_text(*self),
    {
        let mut buf = String::new();
        self.render(&mut buf);
        proof {
            assert(Seq::<char>::empty() + item_text(*self) =~= item_text(*self));
        }
        buf
    }
}

/// A whole C source file.
#[derive(Debug, Default)]
pub struct CTranslationUnit {
    pub items: Vec<CItem>,
}

impl CTranslationUnit {
    pub fn new() -> (r: Self)
        ensures
            r.items@.len() == 0,
    {
        Self { items: Vec::new() }
    }

    pub fn push(&mut self, item: CItem)
        ensures
            final(self).items@ == old(self).items@.push(item),
    {
        self.items.push(item);
    }

    /// The C source text of the whole unit.
    pub fn to_string(&self) -> (r: String)
        ensures
            r@ == items_text(self.items@),
    {
        let mut buf = String::new();
        let mut i: usize = 0;
        proof {
            assert(self.items@.take(0) =~= Seq::<CItem>::empty());
        }
        while i < self.items.len()
            invariant
                i <= self.items@.len(),
                buf@ == items_text(self.items@.take(i as int)),
            decreases self.items@.len() - i,
        {
            self.items[i].render(&mut buf);
            proof {
                let t = self.items@.take(i + 1);
                assert(t.drop_last() =~= self.items@.take(i as int));
                assert(t.last() == self.items@[i as int]);
            }
            i += 1;
        }
        proof {
            assert(self.items@.take(self.items@.len() as int) =~= self.items@);
        }
        buf
    }
}

} // verus!
