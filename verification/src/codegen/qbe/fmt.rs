//! The textual form of the intermediate language, as QBE reads it.
use vstd::prelude::*;

use crate::codegen::qbe::{
    ty_align, ty_fits, AbiTy, BaseTy, Block, Cmp, Const, Data, DataItem, DataValue, Definition,
    ExtTy, Function, Ident, Instruction, Jump, Linkage, Module, Operand, Param, Precision,
    RegularParam, Sign, Statement, SubTy, SubTyKind, SubWordTy, TyDef,
};
use crate::text::{decimal, decimal_digits, push_decimal_i128, push_decimal_u128, push_str};

verus! {

broadcast use crate::text::lemma_add_assoc;

/// `pieces` with `sep` between each two of them.
pub open spec fn join(pieces: Seq<Seq<char>>, sep: Seq<char>) -> Seq<char>
    decreases pieces.len(),
{
    if pieces.len() == 0 {
        Seq::empty()
    } else if pieces.len() == 1 {
        pieces[0]
    } else {
        join(pieces.drop_last(), sep) + sep + pieces.last()
    }
}

/// The texts of some strings.
pub open spec fn texts(v: Seq<String>) -> Seq<Seq<char>> {
    v.map_values(|s: String| s@)
}

/// Joins the strings with `sep` between each two of them.
pub fn join_strings(pieces: &Vec<String>, sep: &str) -> (r: String)
    ensures
        r@ == join(texts(pieces@), sep@),
{
    let mut out = String::new();
    let mut i: usize = 0;
    while i < pieces.len()
        invariant
            i <= pieces@.len(),
            out@ == join(texts(pieces@.take(i as int)), sep@),
        decreases pieces@.len() - i,
    {
        let ghost before = out@;
        if i > 0 {
            push_str(&mut out, sep);
        }
        push_str(&mut out, pieces[i].as_str());
        proof {
            let t = pieces@.take(i + 1);
            assert(texts(t).drop_last() =~= texts(pieces@.take(i as int)));
            assert(texts(t).last() == pieces@[i as int]@);
            if i == 0 {
                assert(texts(pieces@.take(0)) =~= Seq::<Seq<char>>::empty());
                assert(out@ =~= join(texts(t), sep@));
            }
        }
        i += 1;
    }
    proof {
        assert(pieces@.take(pieces@.len() as int) =~= pieces@);
    }
    out
}

// ---------------------------------------------------------------------------------------------
// Names and types
pub open spec fn ident_text(i: Ident) -> Seq<char> {
    match i {
        Ident::Ty(ty) => ":"@ + ty@,
        Ident::Global(global) => "$"@ + global@,
        Ident::Temp(temp) => "%"@ + temp@,
        Ident::Block(block) => "@"@ + block@,
    }
}

pub open spec fn base_ty_text(t: BaseTy) -> Seq<char> {
    match t {
        BaseTy::Word => "w"@,
        BaseTy::Long => "l"@,
        BaseTy::Single => "s"@,
        BaseTy::Double => "d"@,
    }
}

pub open spec fn ext_ty_text(t: ExtTy) -> Seq<char> {
    match t {
        ExtTy::Base(base_ty) => base_ty_text(base_ty),
        ExtTy::Byte => "b"@,
        ExtTy::HalfWord => "h"@,
    }
}

/// The width a store names: a store only truncates, so a sub-word type stores as a plain
/// byte or halfword whatever its sign.
pub open spec fn store_ty_text(t: AbiTy) -> Seq<char> {
    match t {
        AbiTy::SubWord(SubWordTy::SignedByte) => "b"@,
        AbiTy::SubWord(SubWordTy::UnsignedByte) => "b"@,
        AbiTy::SubWord(SubWordTy::SingedHalfWord) => "h"@,
        AbiTy::SubWord(SubWordTy::UnsingedHalfWord) => "h"@,
        _ => abi_text(t),
    }
}

pub open spec fn sub_word_text(t: SubWordTy) -> Seq<char> {
    match t {
        SubWordTy::SignedByte => "sb"@,
        SubWordTy::UnsignedByte => "ub"@,
        SubWordTy::SingedHalfWord => "sh"@,
        SubWordTy::UnsingedHalfWord => "uh"@,
    }
}

pub open spec fn ty_def_ident(t: TyDef) -> Ident {
    match t {
        TyDef::Regular { ident, .. } => ident,
        TyDef::Union { ident, .. } => ident,
        TyDef::Opaque { ident, .. } => ident,
    }
}

pub open spec fn abi_text(t: AbiTy) -> Seq<char> {
    match t {
        AbiTy::Base(base_ty) => base_ty_text(base_ty),
        AbiTy::SubWord(sub_word_ty) => sub_word_text(sub_word_ty),
        AbiTy::Aggregate(ty_def) => ident_text(ty_def_ident(*ty_def)),
    }
}

pub open spec fn sub_ty_text(s: SubTy) -> Seq<char> {
    (match s.kind {
        SubTyKind::Extended(ext_ty) => ext_ty_text(ext_ty),
        SubTyKind::Aggregate(ty_def) => ty_def_ident(*ty_def).name(),
    }) + (match s.align {
        Some(a) => " "@ + decimal_digits(a as nat),
        None => Seq::empty(),
    })
}

/// Each field followed by a comma.
pub open spec fn fields_text(items: Seq<(SubTy, u64)>) -> Seq<char>
    decreases items.len(),
{
    if items.len() == 0 {
        Seq::empty()
    } else {
        fields_text(items.drop_last()) + sub_ty_text(items.last().0) + ","@
    }
}

pub open spec fn variants_text(variants: Seq<Vec<(SubTy, u64)>>) -> Seq<char>
    decreases variants.len(),
{
    if variants.len() == 0 {
        Seq::empty()
    } else {
        variants_text(variants.drop_last()) + fields_text(variants.last()@)
    }
}

/// `type :name = align N{fields}`, a union's fields in braces of their own.
pub open spec fn ty_def_text(t: TyDef) -> Seq<char> {
    "type "@ + ident_text(ty_def_ident(t)) + " = "@ + "align "@ + decimal_digits(ty_align(t) as nat)
        + "{"@ + (match t {
        TyDef::Regular { items, .. } => fields_text(items@),
        TyDef::Union { variants, .. } => "{"@ + variants_text(variants@) + "}"@,
        TyDef::Opaque { .. } => Seq::empty(),
    }) + "}"@
}

impl Ident {
    pub fn render(&self, out: &mut String)
        ensures
            final(out)@ == old(out)@ + ident_text(*self),
    {
        match self {
            Ident::Ty(ty) => {
                push_str(out, ":");
                push_str(out, ty.as_str());
            },
            Ident::Global(global) => {
                push_str(out, "$");
                push_str(out, global.as_str());
            },
            Ident::Temp(temp) => {
                push_str(out, "%");
                push_str(out, temp.as_str());
            },
            Ident::Block(block) => {
                push_str(out, "@");
                push_str(out, block.as_str());
            },
        }
    }

    pub fn to_string(&self) -> (r: String)
        ensures
            r@ == ident_text(*self),
    {
        let mut out = String::new();
        self.render(&mut out);
        out
    }
}

impl BaseTy {
    pub fn as_str(&self) -> (r: &'static str)
        ensures
            r@ == base_ty_text(*self),
    {
        match self {
            BaseTy::Word => "w",
            BaseTy::Long => "l",
            BaseTy::Single => "s",
            BaseTy::Double => "d",
        }
    }
}

impl ExtTy {
    pub fn as_str(&self) -> (r: &'static str)
        ensures
            r@ == ext_ty_text(*self),
    {
        match self {
            ExtTy::Base(base_ty) => base_ty.as_str(),
            ExtTy::Byte => "b",
            ExtTy::HalfWord => "h",
        }
    }
}

impl SubWordTy {
    pub fn as_str(&self) -> (r: &'static str)
        ensures
            r@ == sub_word_text(*self),
    {
        match self {
            SubWordTy::SignedByte => "sb",
            SubWordTy::UnsignedByte => "ub",
            SubWordTy::SingedHalfWord => "sh",
            SubWordTy::UnsingedHalfWord => "uh",
        }
    }
}

impl AbiTy {
    pub fn render(&self, out: &mut String)
        ensures
            final(out)@ == old(out)@ + abi_text(*self),
    {
        match self {
            AbiTy::Base(base_ty) => push_str(out, base_ty.as_str()),
            AbiTy::SubWord(sub_word_ty) => push_str(out, sub_word_ty.as_str()),
            AbiTy::Aggregate(ty_def) => ty_def.ident().render(out),
        }
    }

    /// The width of a store of this type.
    pub fn render_store_width(&self, out: &mut String)
        ensures
            final(out)@ == old(out)@ + store_ty_text(*self),
    {
        match self {
            AbiTy::SubWord(SubWordTy::SignedByte) | AbiTy::SubWord(SubWordTy::UnsignedByte) => push_str(
                out,
                "b",
            ),
            AbiTy::SubWord(SubWordTy::SingedHalfWord) | AbiTy::SubWord(SubWordTy::UnsingedHalfWord) => {
                push_str(out, "h")
            },
            _ => self.render(out),
        }
    }

    pub fn to_string(&self) -> (r: String)
        ensures
            r@ == abi_text(*self),
    {
        let mut out = String::new();
        self.render(&mut out);
        out
    }
}

impl SubTy {
    pub fn render(&self, out: &mut String)
        ensures
            final(out)@ == old(out)@ + sub_ty_text(*self),
    {
        let ghost start = out@;
        match &self.kind {
            SubTyKind::Extended(ext_ty) => push_str(out, ext_ty.as_str()),
            SubTyKind::Aggregate(ty_def) => push_str(out, ty_def.ident().as_str()),
        }
        let ghost mid = out@;
        match self.align {
            Some(alignment) => {
                push_str(out, " ");
                push_decimal_u128(out, alignment as u128);
            },
            None => {
                assert(out@ =~= mid + Seq::<char>::empty());
            },
        }
    }
}

fn render_fields(out: &mut String, items: &Vec<(SubTy, u64)>)
    ensures
        final(out)@ == old(out)@ + fields_text(items@),
{
    let ghost start = out@;
    let mut i: usize = 0;
    proof {
        assert(items@.take(0) =~= Seq::<(SubTy, u64)>::empty());
        assert(start + fields_text(items@.take(0)) =~= start);
    }
    while i < items.len()
        invariant
            i <= items@.len(),
            out@ == start + fields_text(items@.take(i as int)),
        decreases items@.len() - i,
    {
        items[i].0.render(out);
        push_str(out, ",");
        proof {
            let t = items@.take(i + 1);
            assert(t.drop_last() =~= items@.take(i as int));
            assert(t.last() == items@[i as int]);
        }
        i += 1;
    }
    proof {
        assert(items@.take(items@.len() as int) =~= items@);
    }
}

impl TyDef {
    pub fn render(&self, out: &mut String)
        requires
            ty_fits(*self),
            !(self is Opaque),
        ensures
            final(out)@ == old(out)@ + ty_def_text(*self),
    {
        let ghost start = out@;
        push_str(out, "type ");
        self.ident().render(out);
        push_str(out, " = ");
        push_str(out, "align ");
        let align = self.align();
        push_decimal_u128(out, align as u128);
        push_str(out, "{");
        match self {
            TyDef::Regular { items, .. } => render_fields(out, items),
            TyDef::Union { variants, .. } => {
                push_str(out, "{");
                let ghost inner = out@;
                let mut i: usize = 0;
                proof {
                    assert(variants@.take(0) =~= Seq::<Vec<(SubTy, u64)>>::empty());
                    assert(inner + variants_text(variants@.take(0)) =~= inner);
                }
                while i < variants.len()
                    invariant
                        i <= variants@.len(),
                        out@ == inner + variants_text(variants@.take(i as int)),
                    decreases variants@.len() - i,
                {
                    render_fields(out, &variants[i]);
                    proof {
                        let t = variants@.take(i + 1);
                        assert(t.drop_last() =~= variants@.take(i as int));
                        assert(t.last() == variants@[i as int]);
                    }
                    i += 1;
                }
                proof {
                    assert(variants@.take(variants@.len() as int) =~= variants@);
                }
                push_str(out, "}");
            },
            TyDef::Opaque { .. } => {},
        }
        push_str(out, "}");
    }

    pub fn to_string(&self) -> (r: String)
        requires
            ty_fits(*self),
            !(self is Opaque),
        ensures
            r@ == ty_def_text(*self),
    {
        let mut out = String::new();
        self.render(&mut out);
        out
    }
}

// ---------------------------------------------------------------------------------------------
// Operands
pub open spec fn linkage_text(l: Linkage) -> Seq<char> {
    match l {
        Linkage::Export => "export"@,
        Linkage::Thread => "thread"@,
    }
}

pub open spec fn sign_text(s: Sign) -> Seq<char> {
    match s {
        Sign::Minus => "-"@,
        Sign::Plain => Seq::empty(),
    }
}

pub open spec fn precision_text(p: Precision) -> Seq<char> {
    match p {
        Precision::Single => "s_"@,
        Precision::Double => "d_"@,
    }
}

pub open spec fn const_text(c: Const) -> Seq<char> {
    match c {
        Const::Int(sign, val) => sign_text(sign) + decimal(val as int),
        Const::Float(precision, val) => precision_text(precision) + val@,
        Const::Ident(ident) => ident_text(ident),
    }
}

pub open spec fn operand_text(o: Operand) -> Seq<char> {
    match o {
        Operand::Var(name) => ident_text(name),
        Operand::Const(constant) => const_text(constant),
    }
}

impl Linkage {
    pub fn as_str(&self) -> (r: &'static str)
        ensures
            r@ == linkage_text(*self),
    {
        match self {
            Linkage::Export => "export",
            Linkage::Thread => "thread",
        }
    }
}

impl Const {
    pub fn render(&self, out: &mut String)
        ensures
            final(out)@ == old(out)@ + const_text(*self),
    {
        let ghost start = out@;
        match self {
            Const::Int(sign, val) => {
                match sign {
                    Sign::Minus => push_str(out, "-"),
                    Sign::Plain => {
                        assert(out@ =~= start + Seq::<char>::empty());
                    },
                }
                push_decimal_i128(out, *val);
            },
            Const::Float(precision, val) => {
                match precision {
                    Precision::Single => push_str(out, "s_"),
                    Precision::Double => push_str(out, "d_"),
                }
                push_str(out, val.as_str());
            },
            Const::Ident(ident) => ident.render(out),
        }
    }
}

impl Operand {
    pub fn render(&self, out: &mut String)
        ensures
            final(out)@ == old(out)@ + operand_text(*self),
    {
        match self {
            Operand::Var(name) => name.render(out),
            Operand::Const(constant) => constant.render(out),
        }
    }

    pub fn to_string(&self) -> (r: String)
        ensures
            r@ == operand_text(*self),
    {
        let mut out = String::new();
        self.render(&mut out);
        out
    }
}

// ---------------------------------------------------------------------------------------------
// Instructions
pub open spec fn cmp_text(c: Cmp) -> Seq<char> {
    match c {
        Cmp::Slt => "slt"@,
        Cmp::Sle => "sle"@,
        Cmp::Sgt => "sgt"@,
        Cmp::Sge => "sge"@,
        Cmp::Eq => "eq"@,
        Cmp::Ne => "ne"@,
        Cmp::O => "o"@,
        Cmp::Uo => "uo"@,
        Cmp::Ult => "ult"@,
        Cmp::Ule => "ule"@,
        Cmp::Ugt => "ugt"@,
        Cmp::Uge => "uge"@,
    }
}

fn cmp_str(c: &Cmp) -> (r: &'static str)
    ensures
        r@ == cmp_text(*c),
{
    match c {
        Cmp::Slt => "slt",
        Cmp::Sle => "sle",
        Cmp::Sgt => "sgt",
        Cmp::Sge => "sge",
        Cmp::Eq => "eq",
        Cmp::Ne => "ne",
        Cmp::O => "o",
        Cmp::Uo => "uo",
        Cmp::Ult => "ult",
        Cmp::Ule => "ule",
        Cmp::Ugt => "ugt",
        Cmp::Uge => "uge",
    }
}

/// A call argument: its type and its value.
pub open spec fn arg_text(arg: (AbiTy, Operand)) -> Seq<char> {
    abi_text(arg.0) + " "@ + operand_text(arg.1)
}

/// The call arguments, with the variadic marker `...` at its index.
pub open spec fn call_pieces(args: Seq<(AbiTy, Operand)>, variadic: Option<u64>) -> Seq<Seq<char>> {
    let plain = args.map_values(|a: (AbiTy, Operand)| arg_text(a));
    match variadic {
        Some(i) => plain.insert(i as int, "..."@),
        None => plain,
    }
}

/// What an instruction needs to be printed: a variadic marker within the arguments.
pub open spec fn instr_ok(i: Instruction) -> bool {
    match i {
        Instruction::Call(_, args, Some(v)) => v <= args@.len(),
        _ => true,
    }
}

/// `op a, b`
pub open spec fn binary_text(op: Seq<char>, lhs: Operand, rhs: Operand) -> Seq<char> {
    op + " "@ + operand_text(lhs) + ", "@ + operand_text(rhs)
}

/// `op a`
pub open spec fn unary_text(op: Seq<char>, val: Operand) -> Seq<char> {
    op + " "@ + operand_text(val)
}

pub open spec fn u32_text(v: u32) -> Seq<char> {
    decimal_digits(v as nat)
}

pub open spec fn u64_text(v: u64) -> Seq<char> {
    decimal_digits(v as nat)
}

pub open spec fn u128_text(v: u128) -> Seq<char> {
    decimal_digits(v as nat)
}

#[verifier::opaque]
pub open spec fn instr_text(i: Instruction) -> Seq<char> {
    match i {
        Instruction::Add(lhs, rhs) => binary_text("add"@, lhs, rhs),
        Instruction::Sub(lhs, rhs) => binary_text("sub"@, lhs, rhs),
        Instruction::Mul(lhs, rhs) => binary_text("mul"@, lhs, rhs),
        Instruction::Div(lhs, rhs) => binary_text("div"@, lhs, rhs),
        Instruction::Rem(lhs, rhs) => binary_text("rem"@, lhs, rhs),
        Instruction::Cmp(ty, c, lhs, rhs) => binary_text(
            "c"@ + cmp_text(c) + abi_text(ty),
            lhs,
            rhs,
        ),
        Instruction::And(lhs, rhs) => binary_text("and"@, lhs, rhs),
        Instruction::Or(lhs, rhs) => binary_text("or"@, lhs, rhs),
        Instruction::Xor(lhs, rhs) => binary_text("xor"@, lhs, rhs),
        Instruction::Neg(val) => unary_text("neg"@, val),
        Instruction::Copy(val) => unary_text("copy"@, val),
        Instruction::DbgFile(val) => "dbgfile \""@ + val@ + "\""@,
        Instruction::DbgLoc(lineno, column) => "dbgloc "@ + u64_text(lineno) + match column {
            Some(val) => ", "@ + u64_text(val),
            None => Seq::empty(),
        },
        Instruction::Call(name, args, variadic) => "call $"@ + name@ + "("@ + join(
            call_pieces(args@, variadic),
            ", "@,
        ) + ")"@,
        Instruction::Alloc4(size) => "alloc4 "@ + u32_text(size),
        Instruction::Alloc8(size) => "alloc8 "@ + u64_text(size),
        Instruction::Alloc16(size) => "alloc16 "@ + u128_text(size),
        Instruction::Store(ty, dest, value) => "store"@ + store_ty_text(ty) + " "@ + operand_text(value)
            + ", "@ + operand_text(dest),
        Instruction::Load(ty, src) => "load"@ + abi_text(ty) + " "@ + operand_text(src),
        Instruction::Blit(src, dst, n) => binary_text("blit"@, src, dst) + ", "@ + u64_text(n),
        Instruction::Udiv(lhs, rhs) => binary_text("udiv"@, lhs, rhs),
        Instruction::Urem(lhs, rhs) => binary_text("urem"@, lhs, rhs),
        Instruction::Sar(lhs, rhs) => binary_text("sar"@, lhs, rhs),
        Instruction::Shr(lhs, rhs) => binary_text("shr"@, lhs, rhs),
        Instruction::Shl(lhs, rhs) => binary_text("shl"@, lhs, rhs),
        Instruction::Cast(val) => unary_text("cast"@, val),
        Instruction::Extsw(val) => unary_text("extsw"@, val),
        Instruction::Extuw(val) => unary_text("extuw"@, val),
        Instruction::Extsh(val) => unary_text("extsh"@, val),
        Instruction::Extuh(val) => unary_text("extuh"@, val),
        Instruction::Extsb(val) => unary_text("extsb"@, val),
        Instruction::Extub(val) => unary_text("extub"@, val),
        Instruction::Exts(val) => unary_text("exts"@, val),
        Instruction::Truncd(val) => unary_text("truncd"@, val),
        Instruction::Stosi(val) => unary_text("stosi"@, val),
        Instruction::Stoui(val) => unary_text("stoui"@, val),
        Instruction::Dtosi(val) => unary_text("dtosi"@, val),
        Instruction::Dtoui(val) => unary_text("dtoui"@, val),
        Instruction::Swtof(val) => unary_text("swtof"@, val),
        Instruction::Uwtof(val) => unary_text("uwtof"@, val),
        Instruction::Sltof(val) => unary_text("sltof"@, val),
        Instruction::Ultof(val) => unary_text("ultof"@, val),
        Instruction::Vastart(val) => unary_text("vastart"@, val),
        Instruction::Vaarg(ty, val) => "vaarg"@ + abi_text(ty) + " "@ + operand_text(val),
    }
}

fn render_binary(out: &mut String, op: &str, lhs: &Operand, rhs: &Operand)
    ensures
        final(out)@ == old(out)@ + binary_text(op@, *lhs, *rhs),
{
    push_str(out, op);
    push_str(out, " ");
    lhs.render(out);
    push_str(out, ", ");
    rhs.render(out);
}

fn render_unary(out: &mut String, op: &str, val: &Operand)
    ensures
        final(out)@ == old(out)@ + unary_text(op@, *val),
{
    push_str(out, op);
    push_str(out, " ");
    val.render(out);
}

fn push_u64(out: &mut String, v: u64)
    ensures
        final(out)@ == old(out)@ + u64_text(v),
{
    push_decimal_u128(out, v as u128);
}

/// The printed call arguments, with the variadic marker inserted.
fn call_arg_pieces(args: &Vec<(AbiTy, Operand)>, variadic: Option<u64>) -> (r: Vec<String>)
    requires
        variadic matches Some(v) ==> v <= args@.len(),
    ensures
        texts(r@) == call_pieces(args@, variadic),
{
    let mut pieces: Vec<String> = Vec::new();
    let mut i: usize = 0;
    while i < args.len()
        invariant
            i <= args@.len(),
            pieces@.len() == i,
            forall|j: int| 0 <= j < i ==> #[trigger] pieces@[j]@ == arg_text(args@[j]),
        decreases args@.len() - i,
    {
        let (ty, temp) = &args[i];
        let mut piece = String::new();
        ty.render(&mut piece);
        push_str(&mut piece, " ");
        temp.render(&mut piece);
        proof {
            assert(piece@ =~= arg_text(args@[i as int]));
        }
        pieces.push(piece);
        i += 1;
    }
    let ghost plain = args@.map_values(|a: (AbiTy, Operand)| arg_text(a));
    proof {
        assert(texts(pieces@) =~= plain);
    }
    match variadic {
        Some(v) => {
            let ghost before = pieces@;
            pieces.insert(v as usize, "...".to_owned());
            proof {
                assert(texts(pieces@) =~= texts(before).insert(v as int, "..."@));
            }
        },
        None => {},
    }
    pieces
}

fn render_call(out: &mut String, name: &String, args: &Vec<(AbiTy, Operand)>, variadic: Option<u64>)
    requires
        variadic matches Some(v) ==> v <= args@.len(),
    ensures
        final(out)@ == old(out)@ + "call $"@ + name@ + "("@ + join(call_pieces(args@, variadic), ", "@)
            + ")"@,
{
    let pieces = call_arg_pieces(args, variadic);
    let joined = join_strings(&pieces, ", ");
    push_str(out, "call $");
    push_str(out, name.as_str());
    push_str(out, "(");
    push_str(out, joined.as_str());
    push_str(out, ")");
}

impl Instruction {
    pub fn render(&self, out: &mut String)
        requires
            instr_ok(*self),
        ensures
            final(out)@ == old(out)@ + instr_text(*self),
    {
        let ghost start = out@;
        match self {
            Instruction::Add(lhs, rhs) => render_binary(out, "add", lhs, rhs),
            Instruction::Sub(lhs, rhs) => render_binary(out, "sub", lhs, rhs),
            Instruction::Mul(lhs, rhs) => render_binary(out, "mul", lhs, rhs),
            Instruction::Div(lhs, rhs) => render_binary(out, "div", lhs, rhs),
            Instruction::Rem(lhs, rhs) => render_binary(out, "rem", lhs, rhs),
            Instruction::Cmp(ty, c, lhs, rhs) => {
                let mut op = String::new();
                push_str(&mut op, "c");
                push_str(&mut op, cmp_str(c));
                ty.render(&mut op);
                render_binary(out, op.as_str(), lhs, rhs);
            },
            Instruction::And(lhs, rhs) => render_binary(out, "and", lhs, rhs),
            Instruction::Or(lhs, rhs) => render_binary(out, "or", lhs, rhs),
            Instruction::Xor(lhs, rhs) => render_binary(out, "xor", lhs, rhs),
            Instruction::Neg(val) => render_unary(out, "neg", val),
            Instruction::Copy(val) => render_unary(out, "copy", val),
            Instruction::DbgFile(val) => {
                push_str(out, "dbgfile \"");
                push_str(out, val.as_str());
                push_str(out, "\"");
            },
            Instruction::DbgLoc(lineno, column) => {
                push_str(out, "dbgloc ");
                push_u64(out, *lineno);
                let ghost mid = out@;
                match column {
                    Some(val) => {
                        push_str(out, ", ");
                        push_u64(out, *val);
                    },
                    None => {
                        assert(out@ =~= mid + Seq::<char>::empty());
                    },
                }
            },
            Instruction::Call(name, args, variadic) => render_call(out, name, args, *variadic),
            Instruction::Alloc4(size) => {
                push_str(out, "alloc4 ");
                push_decimal_u128(out, u128::from(*size));
            },
            Instruction::Alloc8(size) => {
                push_str(out, "alloc8 ");
                push_u64(out, *size);
            },
            Instruction::Alloc16(size) => {
                push_str(out, "alloc16 ");
                push_decimal_u128(out, *size);
            },
            Instruction::Store(ty, dest, value) => {
                push_str(out, "store");
                ty.render_store_width(out);
                push_str(out, " ");
                value.render(out);
                push_str(out, ", ");
                dest.render(out);
            },
            Instruction::Load(ty, src) => {
                push_str(out, "load");
                ty.render(out);
                push_str(out, " ");
                src.render(out);
            },
            Instruction::Blit(src, dst, n) => {
                render_binary(out, "blit", src, dst);
                push_str(out, ", ");
                push_u64(out, *n);
            },
            Instruction::Udiv(lhs, rhs) => render_binary(out, "udiv", lhs, rhs),
            Instruction::Urem(lhs, rhs) => render_binary(out, "urem", lhs, rhs),
            Instruction::Sar(lhs, rhs) => render_binary(out, "sar", lhs, rhs),
            Instruction::Shr(lhs, rhs) => render_binary(out, "shr", lhs, rhs),
            Instruction::Shl(lhs, rhs) => render_binary(out, "shl", lhs, rhs),
            Instruction::Cast(val) => render_unary(out, "cast", val),
            Instruction::Extsw(val) => render_unary(out, "extsw", val),
            Instruction::Extuw(val) => render_unary(out, "extuw", val),
            Instruction::Extsh(val) => render_unary(out, "extsh", val),
            Instruction::Extuh(val) => render_unary(out, "extuh", val),
            Instruction::Extsb(val) => render_unary(out, "extsb", val),
            Instruction::Extub(val) => render_unary(out, "extub", val),
            Instruction::Exts(val) => render_unary(out, "exts", val),
            Instruction::Truncd(val) => render_unary(out, "truncd", val),
            Instruction::Stosi(val) => render_unary(out, "stosi", val),
            Instruction::Stoui(val) => render_unary(out, "stoui", val),
            Instruction::Dtosi(val) => render_unary(out, "dtosi", val),
            Instruction::Dtoui(val) => render_unary(out, "dtoui", val),
            Instruction::Swtof(val) => render_unary(out, "swtof", val),
            Instruction::Uwtof(val) => render_unary(out, "uwtof", val),
            Instruction::Sltof(val) => render_unary(out, "sltof", val),
            Instruction::Ultof(val) => render_unary(out, "ultof", val),
            Instruction::Vastart(val) => render_unary(out, "vastart", val),
            Instruction::Vaarg(ty, val) => {
                push_str(out, "vaarg");
                ty.render(out);
                push_str(out, " ");
                val.render(out);
            },
        }
        proof {
            reveal(instr_text);
        }
    }

    pub fn to_string(&self) -> (r: String)
        requires
            instr_ok(*self),
        ensures
            r@ == instr_text(*self),
    {
        let mut out = String::new();
        self.render(&mut out);
        out
    }
}

// ---------------------------------------------------------------------------------------------
// Statements, blocks and definitions
/// What a statement needs to be printed: an assignment goes to a temporary.
pub open spec fn statement_ok(s: Statement) -> bool {
    match s {
        Statement::Assign(temp, _, instr) => temp is Var && instr_ok(instr),
        Statement::Volatile(instr) => instr_ok(instr),
    }
}

pub open spec fn statement_text(s: Statement) -> Seq<char> {
    match s {
        Statement::Assign(temp, ty, instr) => operand_text(temp) + " ="@ + base_ty_text(ty) + " "@
            + instr_text(instr),
        Statement::Volatile(instr) => instr_text(instr),
    }
}

pub open spec fn jump_text(j: Jump) -> Seq<char> {
    match j {
        Jump::Jmp(ident) => "jmp "@ + ident_text(ident),
        Jump::Jnz(operand, lhs, rhs) => "jnz "@ + operand_text(operand) + ", "@ + ident_text(lhs)
            + ", "@ + ident_text(rhs),
        Jump::Ret(operand) => "ret "@ + operand_text(operand),
        Jump::Hlt => "hlt"@,
    }
}

/// Each statement on a line of its own, indented by a tab.
pub open spec fn statements_text(s: Seq<Statement>) -> Seq<char>
    decreases s.len(),
{
    if s.len() == 0 {
        Seq::empty()
    } else {
        statements_text(s.drop_last()) + "\t"@ + statement_text(s.last()) + "\n"@
    }
}

pub open spec fn statements_ok(s: Seq<Statement>) -> bool {
    forall|i: int| 0 <= i < s.len() ==> statement_ok(#[trigger] s[i])
}

/// The label, the statements and the jump, each on a line of its own.
pub open spec fn block_text(b: Block) -> Seq<char> {
    ident_text(b.ident) + "\n"@ + statements_text(b.instructions@) + "\t"@ + jump_text(b.jump)
        + "\n"@
}

impl Statement {
    pub fn render(&self, out: &mut String)
        requires
            statement_ok(*self),
        ensures
            final(out)@ == old(out)@ + statement_text(*self),
    {
        match self {
            Statement::Assign(temp, ty, instr) => {
                temp.render(out);
                push_str(out, " =");
                push_str(out, ty.as_str());
                push_str(out, " ");
                instr.render(out);
            },
            Statement::Volatile(instr) => instr.render(out),
        }
    }

    pub fn to_string(&self) -> (r: String)
        requires
            statement_ok(*self),
        ensures
            r@ == statement_text(*self),
    {
        let mut out = String::new();
        self.render(&mut out);
        out
    }
}

impl Jump {
    pub fn render(&self, out: &mut String)
        ensures
            final(out)@ == old(out)@ + jump_text(*self),
    {
        match self {
            Jump::Jmp(ident) => {
                push_str(out, "jmp ");
                ident.render(out);
            },
            Jump::Jnz(operand, lhs, rhs) => {
                push_str(out, "jnz ");
                operand.render(out);
                push_str(out, ", ");
                lhs.render(out);
                push_str(out, ", ");
                rhs.render(out);
            },
            Jump::Ret(operand) => {
                push_str(out, "ret ");
                operand.render(out);
            },
            Jump::Hlt => push_str(out, "hlt"),
        }
    }

    pub fn to_string(&self) -> (r: String)
        ensures
            r@ == jump_text(*self),
    {
        let mut out = String::new();
        self.render(&mut out);
        out
    }
}

impl Block {
    pub fn render(&self, out: &mut String)
        requires
            statements_ok(self.instructions@),
        ensures
            final(out)@ == old(out)@ + block_text(*self),
    {
        let ghost start = out@;
        self.ident.render(out);
        push_str(out, "\n");
        let ghost head = out@;
        let mut i: usize = 0;
        proof {
            assert(self.instructions@.take(0) =~= Seq::<Statement>::empty());
            assert(head + statements_text(self.instructions@.take(0)) =~= head);
        }
        while i < self.instructions.len()
            invariant
                i <= self.instructions@.len(),
                statements_ok(self.instructions@),
                out@ == head + statements_text(self.instructions@.take(i as int)),
            decreases self.instructions@.len() - i,
        {
            push_str(out, "\t");
            self.instructions[i].render(out);
            push_str(out, "\n");
            proof {
                let t = self.instructions@.take(i + 1);
                assert(t.drop_last() =~= self.instructions@.take(i as int));
                assert(t.last() == self.instructions@[i as int]);
            }
            i += 1;
        }
        proof {
            assert(self.instructions@.take(self.instructions@.len() as int) =~= self.instructions@);
        }
        push_str(out, "\t");
        self.jump.render(out);
        push_str(out, "\n");
    }

    pub fn to_string(&self) -> (r: String)
        requires
            statements_ok(self.instructions@),
        ensures
            r@ == block_text(*self),
    {
        let mut out = String::new();
        self.render(&mut out);
        out
    }
}

pub open spec fn param_text(p: Param) -> Seq<char> {
    match p {
        Param::Regular(RegularParam(ty, operand)) => abi_text(ty) + " "@ + operand_text(operand),
        Param::Env(_) => Seq::empty(),
        Param::VariadicMarker => "..."@,
    }
}

/// What a parameter needs to be printed: it is not an environment parameter.
pub open spec fn param_ok(p: Param) -> bool {
    !(p is Env)
}

impl Param {
    pub fn to_string(&self) -> (r: String)
        requires
            param_ok(*self),
        ensures
            r@ == param_text(*self),
    {
        let mut out = String::new();
        match self {
            Param::Regular(RegularParam(ty, operand)) => {
                ty.render(&mut out);
                push_str(&mut out, " ");
                operand.render(&mut out);
            },
            Param::Env(_) => {},
            Param::VariadicMarker => push_str(&mut out, "..."),
        }
        out
    }
}

/// What a function needs to be printed.
pub open spec fn function_ok(f: Function) -> bool {
    &&& forall|i: int| 0 <= i < f.params@.len() ==> param_ok(#[trigger] f.params@[i])
    &&& forall|i: int| 0 <= i < f.blocks@.len() ==> statements_ok(#[trigger] f.blocks@[i].instructions@)
}

/// Each block followed by an empty line.
pub open spec fn blocks_text(s: Seq<Block>) -> Seq<char>
    decreases s.len(),
{
    if s.len() == 0 {
        Seq::empty()
    } else {
        blocks_text(s.drop_last()) + block_text(s.last()) + "\n"@
    }
}

/// `[linkage] function [type] $name(params) {`, the blocks, and `}`.
pub open spec fn function_text(f: Function) -> Seq<char> {
    (match f.linkage {
        Some(l) => linkage_text(l) + " "@,
        None => Seq::empty(),
    }) + "function "@ + (match f.return_ty {
        Some(t) => abi_text(t) + " "@,
        None => Seq::empty(),
    }) + ident_text(f.ident) + "("@ + join(f.params@.map_values(|p: Param| param_text(p)), ", "@)
        + ") {\n"@ + blocks_text(f.blocks@) + "}"@
}

fn param_pieces(params: &Vec<Param>) -> (r: Vec<String>)
    requires
        forall|i: int| 0 <= i < params@.len() ==> param_ok(#[trigger] params@[i]),
    ensures
        texts(r@) == params@.map_values(|p: Param| param_text(p)),
{
    let mut pieces: Vec<String> = Vec::new();
    let mut i: usize = 0;
    while i < params.len()
        invariant
            i <= params@.len(),
            forall|i: int| 0 <= i < params@.len() ==> param_ok(#[trigger] params@[i]),
            pieces@.len() == i,
            forall|j: int| 0 <= j < i ==> #[trigger] pieces@[j]@ == param_text(params@[j]),
        decreases params@.len() - i,
    {
        pieces.push(params[i].to_string());
        i += 1;
    }
    proof {
        assert(texts(pieces@) =~= params@.map_values(|p: Param| param_text(p)));
    }
    pieces
}

impl Function {
    #[verifier::spinoff_prover]
    #[verifier::rlimit(40)]
    pub fn render(&self, out: &mut String)
        requires
            function_ok(*self),
        ensures
            final(out)@ == old(out)@ + function_text(*self),
    {
        let ghost start = out@;
        match &self.linkage {
            Some(linkage) => {
                push_str(out, linkage.as_str());
                push_str(out, " ");
            },
            None => {
                assert(out@ =~= start + Seq::<char>::empty());
            },
        }
        push_str(out, "function ");
        let ghost mid = out@;
        match &self.return_ty {
            Some(return_ty) => {
                return_ty.render(out);
                push_str(out, " ");
            },
            None => {
                assert(out@ =~= mid + Seq::<char>::empty());
            },
        }
        self.ident.render(out);
        push_str(out, "(");
        let params = join_strings(&param_pieces(&self.params), ", ");
        push_str(out, params.as_str());
        push_str(out, ") {\n");
        let ghost head = out@;
        let mut i: usize = 0;
        proof {
            assert(self.blocks@.take(0) =~= Seq::<Block>::empty());
            assert(head + blocks_text(self.blocks@.take(0)) =~= head);
        }
        while i < self.blocks.len()
            invariant
                i <= self.blocks@.len(),
                function_ok(*self),
                out@ == head + blocks_text(self.blocks@.take(i as int)),
            decreases self.blocks@.len() - i,
        {
            self.blocks[i].render(out);
            push_str(out, "\n");
            proof {
                let t = self.blocks@.take(i + 1);
                assert(t.drop_last() =~= self.blocks@.take(i as int));
                assert(t.last() == self.blocks@[i as int]);
            }
            i += 1;
        }
        proof {
            assert(self.blocks@.take(self.blocks@.len() as int) =~= self.blocks@);
        }
        push_str(out, "}");
    }

    pub fn to_string(&self) -> (r: String)
        requires
            function_ok(*self),
        ensures
            r@ == function_text(*self),
    {
        let mut out = String::new();
        self.render(&mut out);
        out
    }
}

pub open spec fn data_item_text(d: DataItem) -> Seq<char> {
    match d {
        DataItem::Ident(..) => Seq::empty(),
        DataItem::String(val) => "\""@ + val@ + "\""@,
        DataItem::Const(val) => const_text(val),
    }
}

/// What data needs to be printed: explicit items, none of them a symbol.
pub open spec fn data_ok(d: Data) -> bool {
    match d.value {
        DataValue::Data(items) => forall|i: int|
            0 <= i < items@.len() ==> !(#[trigger] items@[i].1 is Ident),
        DataValue::Zeroed(_) => false,
    }
}

/// `data $name = {type item, ...}` and a newline.
pub open spec fn data_text(d: Data) -> Seq<char> {
    "data "@ + ident_text(d.ident) + " = {"@ + (match d.value {
        DataValue::Data(items) => join(
            items@.map_values(|it: (ExtTy, DataItem)| ext_ty_text(it.0) + " "@ + data_item_text(it.1)),
            ", "@,
        ),
        DataValue::Zeroed(_) => Seq::empty(),
    }) + "}\n"@
}

impl Data {
    pub fn render(&self, out: &mut String)
        requires
            data_ok(*self),
        ensures
            final(out)@ == old(out)@ + data_text(*self),
    {
        push_str(out, "data ");
        self.ident.render(out);
        push_str(out, " = {");
        match &self.value {
            DataValue::Data(items) => {
                let mut pieces: Vec<String> = Vec::new();
                let mut i: usize = 0;
                while i < items.len()
                    invariant
                        i <= items@.len(),
                        forall|i: int| 0 <= i < items@.len() ==> !(#[trigger] items@[i].1 is Ident),
                        pieces@.len() == i,
                        forall|j: int|
                            0 <= j < i ==> #[trigger] pieces@[j]@ == ext_ty_text(items@[j].0) + " "@
                                + data_item_text(items@[j].1),
                    decreases items@.len() - i,
                {
                    let (ty, item) = &items[i];
                    let mut piece = String::new();
                    push_str(&mut piece, ty.as_str());
                    push_str(&mut piece, " ");
                    match item {
                        DataItem::Ident(..) => {},
                        DataItem::String(val) => {
                            push_str(&mut piece, "\"");
                            push_str(&mut piece, val.as_str());
                            push_str(&mut piece, "\"");
                        },
                        DataItem::Const(val) => val.render(&mut piece),
                    }
                    proof {
                        assert(piece@ =~= ext_ty_text(items@[i as int].0) + " "@ + data_item_text(
                            items@[i as int].1,
                        ));
                    }
                    pieces.push(piece);
                    i += 1;
                }
                proof {
                    assert(texts(pieces@) =~= items@.map_values(
                        |it: (ExtTy, DataItem)| ext_ty_text(it.0) + " "@ + data_item_text(it.1),
                    ));
                }
                let joined = join_strings(&pieces, ", ");
                push_str(out, joined.as_str());
            },
            DataValue::Zeroed(_) => {},
        }
        push_str(out, "}\n");
    }

    pub fn to_string(&self) -> (r: String)
        requires
            data_ok(*self),
        ensures
            r@ == data_text(*self),
    {
        let mut out = String::new();
        self.render(&mut out);
        out
    }
}

/// What a definition needs to be printed.
pub open spec fn definition_ok(d: Definition) -> bool {
    match d {
        Definition::Ty(ty) => ty_fits(*ty) && !(*ty is Opaque),
        Definition::Data(data) => data_ok(data),
        Definition::Fn(function) => function_ok(function),
    }
}

pub open spec fn definition_text(d: Definition) -> Seq<char> {
    match d {
        Definition::Ty(ty) => ty_def_text(*ty),
        Definition::Data(data) => data_text(data),
        Definition::Fn(function) => function_text(function),
    }
}

/// Each definition followed by a newline.
pub open spec fn definitions_text(s: Seq<Definition>) -> Seq<char>
    decreases s.len(),
{
    if s.len() == 0 {
        Seq::empty()
    } else {
        definitions_text(s.drop_last()) + definition_text(s.last()) + "\n"@
    }
}

/// What a module needs to be printed.
pub open spec fn module_ok(m: Module) -> bool {
    forall|i: int| 0 <= i < m.defs@.len() ==> definition_ok(#[trigger] m.defs@[i])
}

impl Definition {
    pub fn render(&self, out: &mut String)
        requires
            definition_ok(*self),
        ensures
            final(out)@ == old(out)@ + definition_text(*self),
    {
        match self {
            Definition::Ty(ty) => ty.render(out),
            Definition::Data(data) => data.render(out),
            Definition::Fn(function) => function.render(out),
        }
    }
}

impl Module {
    pub fn render(&self, out: &mut String)
        requires
            module_ok(*self),
        ensures
            final(out)@ == old(out)@ + definitions_text(self.defs@),
    {
        let ghost start = out@;
        let mut i: usize = 0;
        proof {
            assert(self.defs@.take(0) =~= Seq::<Definition>::empty());
            assert(start + definitions_text(self.defs@.take(0)) =~= start);
        }
        while i < self.defs.len()
            invariant
                i <= self.defs@.len(),
                module_ok(*self),
                out@ == start + definitions_text(self.defs@.take(i as int)),
            decreases self.defs@.len() - i,
        {
            self.defs[i].render(out);
            push_str(out, "\n");
            proof {
                let t = self.defs@.take(i + 1);
                assert(t.drop_last() =~= self.defs@.take(i as int));
                assert(t.last() == self.defs@[i as int]);
            }
            i += 1;
        }
        proof {
            assert(self.defs@.take(self.defs@.len() as int) =~= self.defs@);
        }
    }

    /// The module in QBE's textual form.
    pub fn to_string(&self) -> (r: String)
        requires
            module_ok(*self),
        ensures
            r@ == definitions_text(self.defs@),
    {
        let mut out = String::new();
        self.render(&mut out);
        out
    }
}

} // verus!
