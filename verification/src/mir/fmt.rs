//! The textual form of the intermediate representation.
use vstd::prelude::*;

use crate::ast::{BinOpKind, UnaryOpKind};
use crate::codegen::qbe::fmt::join;
use crate::interner::Interner;
use crate::mir::{
    Block, BlockId, Constant, Data, DataId, DataValue, Definition, Fn, Instruction, MirTy, Module,
    Operand, TempId, Terminator, TyDef,
};
use crate::text::{decimal, decimal_digits, push_decimal_i128, push_decimal_u128, push_str};
use crate::type_checker::{DefId, FieldId, TypeId};

verus! {

broadcast use crate::text::lemma_add_assoc;

/// What the printer shows for the types and definitions that a module refers to: the
/// printed form of each type and the name of each definition.
pub struct MirEnv {
    pub types: Interner<TypeId, String>,
    pub def_names: Interner<DefId, String>,
}

impl MirEnv {
    pub open spec fn has_type(&self, id: TypeId) -> bool {
        self.types.entries().contains_key(id.0)
    }

    pub open spec fn has_def(&self, id: DefId) -> bool {
        self.def_names.entries().contains_key(id.0)
    }

    pub open spec fn type_text(&self, id: TypeId) -> Seq<char> {
        self.types.entries()[id.0]@
    }

    pub open spec fn def_text(&self, id: DefId) -> Seq<char> {
        self.def_names.entries()[id.0]@
    }
}

// ---------------------------------------------------------------------------------------------
// The texts
pub open spec fn u32_text(v: u32) -> Seq<char> {
    decimal_digits(v as nat)
}

pub open spec fn temp_text(t: TempId) -> Seq<char> {
    "_"@ + u32_text(t.0)
}

pub open spec fn data_id_text(d: DataId) -> Seq<char> {
    "_data_"@ + u32_text(d.0)
}

pub open spec fn block_id_text(b: BlockId) -> Seq<char> {
    "bb"@ + u32_text(b.0)
}

pub open spec fn constant_text(c: Constant) -> Seq<char> {
    match c {
        Constant::Int(v, _) => decimal(v as int),
        Constant::Float(text, _) => text@,
        Constant::Bool(b) => if b {
            "true"@
        } else {
            "false"@
        },
        Constant::Unit => "()"@,
    }
}

pub open spec fn operand_text(o: Operand) -> Seq<char> {
    match o {
        Operand::Temporary(t) => temp_text(t),
        Operand::Data(d) => data_id_text(d),
        Operand::Constant(c) => constant_text(c),
    }
}

pub open spec fn bin_op_name(op: BinOpKind) -> Seq<char> {
    match op {
        BinOpKind::Eq => "eq"@,
        BinOpKind::Ne => "ne"@,
        BinOpKind::Add => "add"@,
        BinOpKind::Sub => "sub"@,
        BinOpKind::Mul => "mul"@,
        BinOpKind::Div => "div"@,
        BinOpKind::Lt => "lt"@,
        BinOpKind::Gt => "gt"@,
        BinOpKind::And => "and"@,
        BinOpKind::Or => "or"@,
    }
}

pub open spec fn unary_op_name(op: UnaryOpKind) -> Seq<char> {
    match op {
        UnaryOpKind::Negate => "neg"@,
        UnaryOpKind::Not => "not"@,
    }
}

/// The operands of a call, separated by commas.
pub open spec fn operands_text(ops: Seq<Operand>) -> Seq<char> {
    join(ops.map_values(|o: Operand| operand_text(o)), ", "@)
}

/// Whether the printer knows every type and definition that the instruction names.
pub open spec fn instr_named(env: MirEnv, i: Instruction) -> bool {
    match i {
        Instruction::Call { def, .. } => env.has_def(def),
        Instruction::Alloc { ty, .. } => env.has_type(ty.inner),
        _ => true,
    }
}

#[verifier::opaque]
pub open spec fn instr_text(env: MirEnv, i: Instruction) -> Seq<char> {
    match i {
        Instruction::Copy { dest, val } => temp_text(dest) + " = "@ + operand_text(val),
        Instruction::BinOp { dest, op, lhs, rhs } => temp_text(dest) + " = "@ + bin_op_name(op)
            + " "@ + operand_text(lhs) + ", "@ + operand_text(rhs),
        Instruction::UnaryOp { dest, op, rhs } => temp_text(dest) + " = "@ + unary_op_name(op)
            + " "@ + operand_text(rhs),
        Instruction::Call { dest, def, operands } => (match dest {
            Some(d) => temp_text(d) + " = "@,
            None => Seq::empty(),
        }) + "call "@ + env.def_text(def) + "("@ + operands_text(operands@) + ")"@,
        Instruction::Alloc { dest, ty, count } => temp_text(dest) + " = alloc"@ + decimal_digits(
            count as nat,
        ) + " "@ + (if ty.indirection is Ptr {
            "*"@
        } else {
            Seq::empty()
        }) + env.type_text(ty.inner),
        Instruction::Store { addr, val } => "store "@ + operand_text(val) + " -> "@ + temp_text(
            addr,
        ),
        Instruction::Load { dest, addr } => temp_text(dest) + " = "@ + temp_text(addr),
        Instruction::IndexPtr { dest, base, index, .. } => temp_text(dest) + " = index "@
            + operand_text(base) + " -> "@ + operand_text(index),
        Instruction::FieldPtr { dest, lval, field_id, .. } => temp_text(dest) + " = getfieldptr "@
            + operand_text(lval) + " -> "@ + u32_text(field_id.0),
    }
}

pub open spec fn term_text(t: Terminator) -> Seq<char> {
    match t {
        Terminator::Goto(b) => "goto ->"@ + block_id_text(b),
        Terminator::Return(val) => "return "@ + operand_text(val),
        Terminator::Branch { cond, consequence, alternative } => "branch "@ + operand_text(cond)
            + " -> "@ + block_id_text(consequence) + ", "@ + block_id_text(alternative),
    }
}

/// Each instruction on a line of its own, indented by two levels.
pub open spec fn instrs_text(env: MirEnv, body: Seq<Instruction>) -> Seq<char>
    decreases body.len(),
{
    if body.len() == 0 {
        Seq::empty()
    } else {
        instrs_text(env, body.drop_last()) + "    "@ + instr_text(env, body.last()) + "\n"@
    }
}

pub open spec fn block_named(env: MirEnv, b: Block) -> bool {
    forall|k: int| 0 <= k < b.body@.len() ==> instr_named(env, #[trigger] b.body@[k])
}

pub open spec fn block_text(env: MirEnv, b: Block) -> Seq<char> {
    instrs_text(env, b.body@) + "    "@ + term_text(b.term) + "\n"@
}

/// The label line and the text of block `k`, and a blank line after each block but the last.
pub open spec fn block_entry(env: MirEnv, blocks: Seq<Block>, k: int) -> Seq<char> {
    "  bb"@ + decimal_digits(k as nat) + ":\n"@ + block_text(env, blocks[k]) + (if k != blocks.len()
        - 1 {
        "\n"@
    } else {
        Seq::empty()
    })
}

/// The entries of the first `n` blocks.
pub open spec fn blocks_text(env: MirEnv, blocks: Seq<Block>, n: nat) -> Seq<char>
    decreases n,
{
    if n == 0 {
        Seq::empty()
    } else {
        blocks_text(env, blocks, (n - 1) as nat) + block_entry(env, blocks, n - 1)
    }
}

pub open spec fn fn_named(env: MirEnv, f: Fn) -> bool {
    forall|k: int| 0 <= k < f.blocks@.len() ==> block_named(env, #[trigger] f.blocks@[k])
}

pub open spec fn fn_text(env: MirEnv, f: Fn) -> Seq<char> {
    "func @"@ + f.name@ + "\n"@ + blocks_text(env, f.blocks@, f.blocks@.len())
}

/// Each field with the printed form of its type, one per line.
pub open spec fn fields_text(env: MirEnv, fields: Seq<(FieldId, MirTy)>) -> Seq<char>
    decreases fields.len(),
{
    if fields.len() == 0 {
        Seq::empty()
    } else {
        fields_text(env, fields.drop_last()) + "  "@ + u32_text(fields.last().0.0) + " = "@
            + env.type_text(fields.last().1.inner) + "\n"@
    }
}

pub open spec fn ty_def_named(env: MirEnv, t: TyDef) -> bool {
    match t {
        TyDef::Struct { fields, .. } => forall|k: int|
            0 <= k < fields@.len() ==> env.has_type(#[trigger] fields@[k].1.inner),
    }
}

pub open spec fn ty_def_text(env: MirEnv, t: TyDef) -> Seq<char> {
    match t {
        TyDef::Struct { name, fields } => "struct "@ + name@ + " =\n"@ + fields_text(env, fields@),
    }
}

pub open spec fn data_text(d: Data) -> Seq<char> {
    data_id_text(d.id) + ": "@ + (match d.value {
        DataValue::Bytes(_) => "<bytes>"@,
        DataValue::String(inner) => inner@,
    }) + "\n"@
}

pub open spec fn def_named(env: MirEnv, d: Definition) -> bool {
    match d {
        Definition::Ty(t) => ty_def_named(env, t),
        Definition::Data(_) => true,
        Definition::Fn(f) => fn_named(env, f),
    }
}

pub open spec fn def_text(env: MirEnv, d: Definition) -> Seq<char> {
    match d {
        Definition::Ty(t) => ty_def_text(env, t),
        Definition::Data(data) => data_text(data),
        Definition::Fn(f) => fn_text(env, f),
    }
}

/// The first `n` definitions, with a blank line after each but the last.
pub open spec fn defs_text(env: MirEnv, defs: Seq<Definition>, n: nat) -> Seq<char>
    decreases n,
{
    if n == 0 {
        Seq::empty()
    } else {
        defs_text(env, defs, (n - 1) as nat) + def_text(env, defs[n - 1]) + (if n - 1 != defs.len()
            - 1 {
            "\n"@
        } else {
            Seq::empty()
        })
    }
}

/// Whether the printer knows every type and definition that the module names.
pub open spec fn module_named(env: MirEnv, m: Module) -> bool {
    forall|k: int| 0 <= k < m.defs@.len() ==> def_named(env, #[trigger] m.defs@[k])
}

pub open spec fn module_text(env: MirEnv, m: Module) -> Seq<char> {
    defs_text(env, m.defs@, m.defs@.len())
}

// ---------------------------------------------------------------------------------------------
// Printing
fn push_u32(out: &mut String, v: u32)
    ensures
        final(out)@ == old(out)@ + u32_text(v),
{
    push_decimal_u128(out, v as u128);
}

fn render_temp(out: &mut String, t: &TempId)
    ensures
        final(out)@ == old(out)@ + temp_text(*t),
{
    push_str(out, "_");
    push_u32(out, t.0);
}

fn render_data_id(out: &mut String, d: &DataId)
    ensures
        final(out)@ == old(out)@ + data_id_text(*d),
{
    push_str(out, "_data_");
    push_u32(out, d.0);
}

fn render_block_id(out: &mut String, b: &BlockId)
    ensures
        final(out)@ == old(out)@ + block_id_text(*b),
{
    push_str(out, "bb");
    push_u32(out, b.0);
}

fn render_constant(out: &mut String, c: &Constant)
    ensures
        final(out)@ == old(out)@ + constant_text(*c),
{
    match c {
        Constant::Int(v, _) => push_decimal_i128(out, *v),
        Constant::Float(text, _) => push_str(out, text.as_str()),
        Constant::Bool(b) => {
            if *b {
                push_str(out, "true");
            } else {
                push_str(out, "false");
            }
        },
        Constant::Unit => push_str(out, "()"),
    }
}

fn render_operand(out: &mut String, o: &Operand)
    ensures
        final(out)@ == old(out)@ + operand_text(*o),
{
    match o {
        Operand::Temporary(t) => render_temp(out, t),
        Operand::Data(d) => render_data_id(out, d),
        Operand::Constant(c) => render_constant(out, c),
    }
}

fn render_operands(out: &mut String, ops: &Vec<Operand>)
    ensures
        final(out)@ == old(out)@ + operands_text(ops@),
{
    let ghost start = out@;
    let ghost texts = ops@.map_values(|o: Operand| operand_text(o));
    let mut i: usize = 0;
    proof {
        assert(texts.take(0) =~= Seq::<Seq<char>>::empty());
        assert(out@ =~= start + join(texts.take(0), ", "@));
    }
    while i < ops.len()
        invariant
            i <= ops@.len(),
            texts == ops@.map_values(|o: Operand| operand_text(o)),
            out@ == start + join(texts.take(i as int), ", "@),
        decreases ops@.len() - i,
    {
        if i > 0 {
            push_str(out, ", ");
        }
        render_operand(out, &ops[i]);
        proof {
            let t = texts.take(i + 1);
            assert(t.drop_last() =~= texts.take(i as int));
            assert(t.last() == operand_text(ops@[i as int]));
            if i == 0 {
                assert(t.len() == 1);
            }
        }
        i += 1;
    }
    proof {
        assert(texts.take(ops@.len() as int) =~= texts);
    }
}

fn bin_op_str(op: &BinOpKind) -> (r: &'static str)
    ensures
        r@ == bin_op_name(*op),
{
    match op {
        BinOpKind::Eq => "eq",
        BinOpKind::Ne => "ne",
        BinOpKind::Add => "add",
        BinOpKind::Sub => "sub",
        BinOpKind::Mul => "mul",
        BinOpKind::Div => "div",
        BinOpKind::Lt => "lt",
        BinOpKind::Gt => "gt",
        BinOpKind::And => "and",
        BinOpKind::Or => "or",
    }
}

fn unary_op_str(op: &UnaryOpKind) -> (r: &'static str)
    ensures
        r@ == unary_op_name(*op),
{
    match op {
        UnaryOpKind::Negate => "neg",
        UnaryOpKind::Not => "not",
    }
}

impl MirEnv {
    fn push_type(&self, out: &mut String, id: TypeId)
        requires
            self.has_type(id),
        ensures
            final(out)@ == old(out)@ + self.type_text(id),
    {
        if let Some(text) = self.types.get(&id) {
            push_str(out, text.as_str());
        }
    }

    fn push_def(&self, out: &mut String, id: DefId)
        requires
            self.has_def(id),
        ensures
            final(out)@ == old(out)@ + self.def_text(id),
    {
        if let Some(text) = self.def_names.get(&id) {
            push_str(out, text.as_str());
        }
    }
}

fn render_instruction(env: &MirEnv, out: &mut String, instr: &Instruction)
    requires
        instr_named(*env, *instr),
    ensures
        final(out)@ == old(out)@ + instr_text(*env, *instr),
{
    let ghost start = out@;
    match instr {
        Instruction::Copy { dest, val } => {
            render_temp(out, dest);
            push_str(out, " = ");
            render_operand(out, val);
        },
        Instruction::BinOp { dest, op, lhs, rhs } => {
            render_temp(out, dest);
            push_str(out, " = ");
            push_str(out, bin_op_str(op));
            push_str(out, " ");
            render_operand(out, lhs);
            push_str(out, ", ");
            render_operand(out, rhs);
        },
        Instruction::UnaryOp { dest, op, rhs } => {
            render_temp(out, dest);
            push_str(out, " = ");
            push_str(out, unary_op_str(op));
            push_str(out, " ");
            render_operand(out, rhs);
        },
        Instruction::Call { dest, def, operands } => {
            match dest {
                Some(dest) => {
                    render_temp(out, dest);
                    push_str(out, " = ");
                },
                None => {
                    assert(out@ =~= start + Seq::<char>::empty());
                },
            }
            push_str(out, "call ");
            env.push_def(out, *def);
            push_str(out, "(");
            render_operands(out, operands);
            push_str(out, ")");
        },
        Instruction::Alloc { dest, ty, count } => {
            render_temp(out, dest);
            push_str(out, " = alloc");
            push_decimal_u128(out, *count as u128);
            push_str(out, " ");
            let ghost mid = out@;
            if ty.indirection.is_ptr() {
                push_str(out, "*");
            } else {
                assert(out@ =~= mid + Seq::<char>::empty());
            }
            env.push_type(out, ty.inner);
        },
        Instruction::Store { addr, val } => {
            push_str(out, "store ");
            render_operand(out, val);
            push_str(out, " -> ");
            render_temp(out, addr);
        },
        Instruction::Load { dest, addr } => {
            render_temp(out, dest);
            push_str(out, " = ");
            render_temp(out, addr);
        },
        Instruction::IndexPtr { dest, base, index, .. } => {
            render_temp(out, dest);
            push_str(out, " = index ");
            render_operand(out, base);
            push_str(out, " -> ");
            render_operand(out, index);
        },
        Instruction::FieldPtr { dest, lval, field_id, .. } => {
            render_temp(out, dest);
            push_str(out, " = getfieldptr ");
            render_operand(out, lval);
            push_str(out, " -> ");
            push_u32(out, field_id.0);
        },
    }
    proof {
        reveal(instr_text);
    }
}

fn render_terminator(out: &mut String, term: &Terminator)
    ensures
        final(out)@ == old(out)@ + term_text(*term),
{
    match term {
        Terminator::Goto(block_id) => {
            push_str(out, "goto ->");
            render_block_id(out, block_id);
        },
        Terminator::Return(val) => {
            push_str(out, "return ");
            render_operand(out, val);
        },
        Terminator::Branch { cond, consequence, alternative } => {
            push_str(out, "branch ");
            render_operand(out, cond);
            push_str(out, " -> ");
            render_block_id(out, consequence);
            push_str(out, ", ");
            render_block_id(out, alternative);
        },
    }
}

fn render_block(env: &MirEnv, out: &mut String, block: &Block)
    requires
        block_named(*env, *block),
    ensures
        final(out)@ == old(out)@ + block_text(*env, *block),
{
    let ghost start = out@;
    let mut i: usize = 0;
    proof {
        assert(block.body@.take(0) =~= Seq::<Instruction>::empty());
        assert(out@ =~= start + instrs_text(*env, block.body@.take(0)));
    }
    while i < block.body.len()
        invariant
            i <= block.body@.len(),
            block_named(*env, *block),
            out@ == start + instrs_text(*env, block.body@.take(i as int)),
        decreases block.body@.len() - i,
    {
        push_str(out, "    ");
        render_instruction(env, out, &block.body[i]);
        push_str(out, "\n");
        proof {
            let t = block.body@.take(i + 1);
            assert(t.drop_last() =~= block.body@.take(i as int));
            assert(t.last() == block.body@[i as int]);
        }
        i += 1;
    }
    proof {
        assert(block.body@.take(block.body@.len() as int) =~= block.body@);
    }
    push_str(out, "    ");
    render_terminator(out, &block.term);
    push_str(out, "\n");
}

fn render_fn(env: &MirEnv, out: &mut String, func: &Fn)
    requires
        fn_named(*env, *func),
        func.blocks@.len() <= u32::MAX,
    ensures
        final(out)@ == old(out)@ + fn_text(*env, *func),
{
    push_str(out, "func @");
    push_str(out, func.name.as_str());
    push_str(out, "\n");
    let ghost head = out@;
    let n = func.blocks.len();
    let mut i: usize = 0;
    while i < n
        invariant
            i <= n,
            n == func.blocks@.len(),
            n <= u32::MAX,
            fn_named(*env, *func),
            out@ == head + blocks_text(*env, func.blocks@, i as nat),
        decreases n - i,
    {
        push_str(out, "  bb");
        push_decimal_u128(out, i as u128);
        push_str(out, ":\n");
        render_block(env, out, &func.blocks[i]);
        let ghost mid = out@;
        if i != n - 1 {
            push_str(out, "\n");
        } else {
            assert(out@ =~= mid + Seq::<char>::empty());
        }
        i += 1;
    }
}

fn render_ty_def(env: &MirEnv, out: &mut String, ty_def: &TyDef)
    requires
        ty_def_named(*env, *ty_def),
    ensures
        final(out)@ == old(out)@ + ty_def_text(*env, *ty_def),
{
    match ty_def {
        TyDef::Struct { name, fields } => {
            push_str(out, "struct ");
            push_str(out, name.as_str());
            push_str(out, " =\n");
            let ghost head = out@;
            let mut i: usize = 0;
            proof {
                assert(fields@.take(0) =~= Seq::<(FieldId, MirTy)>::empty());
                assert(out@ =~= head + fields_text(*env, fields@.take(0)));
            }
            while i < fields.len()
                invariant
                    i <= fields@.len(),
                    ty_def_named(*env, *ty_def),
                    *ty_def == (TyDef::Struct { name: *name, fields: *fields }),
                    out@ == head + fields_text(*env, fields@.take(i as int)),
                decreases fields@.len() - i,
            {
                let (field_id, mir_ty) = &fields[i];
                push_str(out, "  ");
                push_u32(out, field_id.0);
                push_str(out, " = ");
                env.push_type(out, mir_ty.inner);
                push_str(out, "\n");
                proof {
                    let t = fields@.take(i + 1);
                    assert(t.drop_last() =~= fields@.take(i as int));
                    assert(t.last() == fields@[i as int]);
                }
                i += 1;
            }
            proof {
                assert(fields@.take(fields@.len() as int) =~= fields@);
            }
        },
    }
}

fn render_data(out: &mut String, data: &Data)
    ensures
        final(out)@ == old(out)@ + data_text(*data),
{
    render_data_id(out, &data.id);
    push_str(out, ": ");
    match &data.value {
        DataValue::Bytes(_) => push_str(out, "<bytes>"),
        DataValue::String(inner) => push_str(out, inner.as_str()),
    }
    push_str(out, "\n");
}

/// Whether every function of the module numbers its blocks within `u32`.
pub open spec fn module_fits(m: Module) -> bool {
    forall|k: int|
        0 <= k < m.defs@.len() ==> (#[trigger] m.defs@[k] matches Definition::Fn(f)
            ==> f.blocks@.len() <= u32::MAX)
}

fn render_definition(env: &MirEnv, out: &mut String, def: &Definition)
    requires
        def_named(*env, *def),
        def matches Definition::Fn(f) ==> f.blocks@.len() <= u32::MAX,
    ensures
        final(out)@ == old(out)@ + def_text(*env, *def),
{
    match def {
        Definition::Ty(ty_def) => render_ty_def(env, out, ty_def),
        Definition::Data(data) => render_data(out, data),
        Definition::Fn(func) => render_fn(env, out, func),
    }
}

/// Prints a module with the names that `env` gives its types and definitions.
pub struct MirPrinter<'env> {
    env: &'env MirEnv,
    module: Module,
}

impl<'env> MirPrinter<'env> {
    pub fn new(module: Module, env: &'env MirEnv) -> (r: Self)
        ensures
            r.env() == *env,
            r.module() == module,
    {
        MirPrinter { env, module }
    }

    pub closed spec fn env(&self) -> MirEnv {
        *self.env
    }

    pub closed spec fn module(&self) -> Module {
        self.module
    }

    pub fn to_string(&self) -> (r: String)
        requires
            module_named(self.env(), self.module()),
            module_fits(self.module()),
        ensures
            r@ == module_text(self.env(), self.module()),
    {
        let mut out = String::new();
        let defs = &self.module.defs;
        let n = defs.len();
        let mut i: usize = 0;
        proof {
            assert(out@ =~= defs_text(*self.env, defs@, 0));
        }
        while i < n
            invariant
                i <= n,
                n == defs@.len(),
                *defs == self.module.defs,
                module_named(*self.env, self.module),
                module_fits(self.module),
                out@ == defs_text(*self.env, defs@, i as nat),
            decreases n - i,
        {
            render_definition(self.env, &mut out, &defs[i]);
            let ghost mid = out@;
            if i != n - 1 {
                push_str(&mut out, "\n");
            } else {
                assert(out@ =~= mid + Seq::<char>::empty());
            }
            i += 1;
        }
        out
    }
}

} // verus!
