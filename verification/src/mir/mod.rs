//! The mid-level intermediate representation: functions as basic blocks of simple
//! instructions over numbered temporaries.
use vstd::prelude::*;

use crate::ast::{BinOpKind, UnaryOpKind};
use crate::interner::Id;
use crate::type_checker::{DefId, FieldId, TypeId};

pub mod builder;
pub mod fmt;
pub mod op_names;

verus! {

/// The id of a temporary.
#[derive(Debug, Clone, Copy, PartialEq, Eq, Hash, Structural)]
pub struct TempId(pub u32);

/// The id of a piece of static data.
#[derive(Debug, Clone, Copy, PartialEq, Eq, Hash, Structural)]
pub struct DataId(pub u32);

/// The id of a basic block within its function.
#[derive(Debug, Clone, Copy, PartialEq, Eq, Hash, Structural)]
pub struct BlockId(pub u32);

impl Id for TempId {
    open spec fn index(&self) -> u32 {
        self.0
    }

    fn new(inner: u32) -> (r: Self) {
        TempId(inner)
    }

    fn into_inner(self) -> (r: u32) {
        self.0
    }

    proof fn lemma_index_determines(a: Self, b: Self) {
    }
}

impl Id for DataId {
    open spec fn index(&self) -> u32 {
        self.0
    }

    fn new(inner: u32) -> (r: Self) {
        DataId(inner)
    }

    fn into_inner(self) -> (r: u32) {
        self.0
    }

    proof fn lemma_index_determines(a: Self, b: Self) {
    }
}

impl Id for BlockId {
    open spec fn index(&self) -> u32 {
        self.0
    }

    fn new(inner: u32) -> (r: Self) {
        BlockId(inner)
    }

    fn into_inner(self) -> (r: u32) {
        self.0
    }

    proof fn lemma_index_determines(a: Self, b: Self) {
    }
}

/// Whether a value is used as it is or through a pointer to it.
#[derive(Debug, Clone, Copy, PartialEq, Eq, Structural)]
pub enum Indirection {
    Direct,
    Ptr,
}

impl Indirection {
    pub fn is_ptr(&self) -> (r: bool)
        ensures
            r == (*self is Ptr),
    {
        match self {
            Indirection::Ptr => true,
            Indirection::Direct => false,
        }
    }
}

impl Default for Indirection {
    fn default() -> (r: Self)
        ensures
            r == Indirection::Direct,
    {
        Indirection::Direct
    }
}

/// A type together with how it is reached.
#[derive(Debug, Clone, Copy, PartialEq, Eq, Structural)]
pub struct MirTy {
    pub inner: TypeId,
    pub indirection: Indirection,
}

impl MirTy {
    pub fn new(inner: TypeId) -> (r: Self)
        ensures
            r == (MirTy { inner, indirection: Indirection::Direct }),
    {
        MirTy { inner, indirection: Indirection::Direct }
    }

    pub fn new_ptr(inner: TypeId) -> (r: Self)
        ensures
            r == (MirTy { inner, indirection: Indirection::Ptr }),
    {
        MirTy { inner, indirection: Indirection::Ptr }
    }

    pub fn set_indirection(&mut self, indirection: Indirection)
        ensures
            *final(self) == (MirTy { inner: old(self).inner, indirection }),
    {
        self.indirection = indirection
    }
}

/// A constant operand. A float carries its decimal text.
#[derive(Debug, Clone)]
pub enum Constant {
    Int(i128, MirTy),
    Float(String, MirTy),
    Bool(bool),
    Unit,
}

/// What an instruction reads.
#[derive(Debug, Clone)]
pub enum Operand {
    Temporary(TempId),
    Data(DataId),
    Constant(Constant),
}

impl Operand {
    /// The unit value.
    pub fn unit() -> (r: Self)
        ensures
            r == Operand::Constant(Constant::Unit),
    {
        Operand::Constant(Constant::Unit)
    }

    /// The temporary this operand reads, if it reads one.
    pub fn as_temp(&self) -> (r: Option<&TempId>)
        ensures
            r == (match *self {
                Operand::Temporary(t) => Some(&t),
                _ => None::<&TempId>,
            }),
    {
        match self {
            Operand::Temporary(temp_id) => Some(temp_id),
            Operand::Data(_) | Operand::Constant(_) => None,
        }
    }
}

/// One step of a basic block.
#[derive(Debug)]
pub enum Instruction {
    Copy { dest: TempId, val: Operand },
    BinOp { dest: TempId, op: BinOpKind, lhs: Operand, rhs: Operand },
    UnaryOp { dest: TempId, op: UnaryOpKind, rhs: Operand },
    Call { dest: Option<TempId>, def: DefId, operands: Vec<Operand> },
    Alloc { dest: TempId, ty: MirTy, count: u64 },
    Load { dest: TempId, addr: TempId },
    Store { addr: TempId, val: Operand },
    IndexPtr { dest: TempId, base: Operand, index: Operand, elem_ty: MirTy },
    FieldPtr { dest: TempId, lval: Operand, field_id: FieldId, base_ty: MirTy, field_ty: MirTy },
}

impl Instruction {
    pub fn copy(dest: TempId, val: Operand) -> (r: Self)
        ensures
            r == (Instruction::Copy { dest, val }),
    {
        Instruction::Copy { dest, val }
    }

    /// A copy of `val` into `dest`, or nothing where `val` is the unit value.
    pub fn copy_non_unit(dest: TempId, val: Operand) -> (r: Option<Self>)
        ensures
            r == (if val == Operand::Constant(Constant::Unit) {
                None::<Instruction>
            } else {
                Some(Instruction::Copy { dest, val })
            }),
    {
        match val {
            Operand::Constant(Constant::Unit) => None,
            _ => Some(Self::copy(dest, val)),
        }
    }

    pub fn bin_op(dest: TempId, op: BinOpKind, lhs: Operand, rhs: Operand) -> (r: Self)
        ensures
            r == (Instruction::BinOp { dest, op, lhs, rhs }),
    {
        Instruction::BinOp { dest, op, lhs, rhs }
    }

    pub fn unary_op(dest: TempId, op: UnaryOpKind, rhs: Operand) -> (r: Self)
        ensures
            r == (Instruction::UnaryOp { dest, op, rhs }),
    {
        Instruction::UnaryOp { dest, op, rhs }
    }

    pub fn call(dest: Option<TempId>, def: DefId, operands: Vec<Operand>) -> (r: Self)
        ensures
            r == (Instruction::Call { dest, def, operands }),
    {
        Instruction::Call { dest, def, operands }
    }
}

/// How a basic block ends.
#[derive(Debug)]
pub enum Terminator {
    Goto(BlockId),
    Return(Operand),
    Branch { cond: Operand, consequence: BlockId, alternative: BlockId },
}

impl Terminator {
    pub fn goto(block: BlockId) -> (r: Self)
        ensures
            r == Terminator::Goto(block),
    {
        Terminator::Goto(block)
    }

    pub fn ret(operand: Operand) -> (r: Self)
        ensures
            r == Terminator::Return(operand),
    {
        Terminator::Return(operand)
    }

    pub fn branch(cond: Operand, consequence: BlockId, alternative: BlockId) -> (r: Self)
        ensures
            r == (Terminator::Branch { cond, consequence, alternative }),
    {
        Terminator::Branch { cond, consequence, alternative }
    }
}

/// A basic block: its instructions and how it ends.
#[derive(Debug)]
pub struct Block {
    pub body: Vec<Instruction>,
    pub term: Terminator,
}

/// A function: its parameters, the types of its temporaries and its blocks.
#[derive(Debug)]
pub struct Fn {
    pub name: String,
    pub return_ty: MirTy,
    pub params: Vec<(TempId, MirTy)>,
    pub temps: Vec<MirTy>,
    pub blocks: Vec<Block>,
}

impl Fn {
    /// The type of the temporary `id`.
    pub fn temp_ty(&self, id: TempId) -> (r: MirTy)
        requires
            id.0 < self.temps@.len(),
        ensures
            r == self.temps@[id.0 as int],
    {
        self.temps[id.into_inner() as usize]
    }
}

#[derive(Debug)]
pub enum DataValue {
    Bytes(Vec<u8>),
    String(String),
}

/// A piece of static data.
#[derive(Debug)]
pub struct Data {
    pub id: DataId,
    pub value: DataValue,
}

#[derive(Debug)]
pub enum TyDef {
    Struct { name: String, fields: Vec<(FieldId, MirTy)> },
}

#[derive(Debug)]
pub enum Definition {
    Ty(TyDef),
    Data(Data),
    Fn(Fn),
}

#[derive(Debug)]
pub struct Module {
    pub defs: Vec<Definition>,
}

} // verus!
