//! Names that the lowering of the mid-level representation gives blocks, data and
//! temporaries in the intermediate language.
use vstd::prelude::*;

use crate::codegen::qbe::{
    Const, Data, DataItem, DataValue, ExtTy, Ident, IntoOperand, Jump, Operand, Sign,
};
use crate::interner::Id;
use crate::mir;
use crate::number::{base26, bijective_base26, lemma_base26_injective, lemma_base26_lowercase};
use crate::text::{decimal_digits, push_decimal_u128, push_str};

verus! {

/// The label of block `block_id`: `bb` and its number.
pub fn block_name(block_id: &mir::BlockId) -> (r: Ident)
    ensures
        r matches Ident::Block(name) && name@ == "bb"@ + decimal_digits(block_id.0 as nat),
{
    let mut name = String::new();
    push_str(&mut name, "bb");
    push_decimal_u128(&mut name, block_id.into_inner() as u128);
    Ident::block(name)
}

/// The global name of piece of data `data_id`: `dat_` and its number.
pub fn data_name(data_id: mir::DataId) -> (r: Ident)
    ensures
        r matches Ident::Global(name) && name@ == "dat_"@ + decimal_digits(data_id.0 as nat),
{
    let mut name = String::new();
    push_str(&mut name, "dat_");
    push_decimal_u128(&mut name, data_id.into_inner() as u128);
    Ident::global(name)
}

/// A temporary that the lowering adds beside those of the function.
#[derive(Debug, Clone, Copy)]
pub struct TempId(pub usize);

/// The numbers of the added temporaries start after all names of two letters, so that
/// their names never meet those of the function's own temporaries.
impl IntoOperand for TempId {
    open spec fn nameable(&self) -> bool {
        self.0 + 26 * 26 < usize::MAX
    }

    open spec fn temp_name(&self) -> Seq<char> {
        "_"@ + base26((self.0 + 26 * 26 + 1) as nat)
    }

    fn into_operand(self) -> (r: Operand) {
        let mut name = String::new();
        push_str(&mut name, "_");
        let letters = bijective_base26(self.0 + 26 * 26);
        push_str(&mut name, letters.as_str());
        Operand::Var(Ident::temp(name))
    }
}

/// A temporary of the function is named by its number in letters.
impl IntoOperand for mir::TempId {
    open spec fn nameable(&self) -> bool {
        self.0 < usize::MAX
    }

    open spec fn temp_name(&self) -> Seq<char> {
        base26((self.0 + 1) as nat)
    }

    fn into_operand(self) -> (r: Operand) {
        Operand::Var(Ident::temp(bijective_base26(self.into_inner() as usize)))
    }
}

/// The label of a block: `bb` and its number.
pub open spec fn block_label(b: mir::BlockId) -> Seq<char> {
    "bb"@ + decimal_digits(b.0 as nat)
}

/// The name of a piece of data: `dat_` and its number.
pub open spec fn data_label(d: mir::DataId) -> Seq<char> {
    "dat_"@ + decimal_digits(d.0 as nat)
}

/// Whether an operand can be lowered: a temporary whose number can be named, a piece of data,
/// or an integer constant.
pub open spec fn lowerable(o: mir::Operand) -> bool {
    match o {
        mir::Operand::Temporary(t) => t.0 < usize::MAX,
        mir::Operand::Data(_) => true,
        mir::Operand::Constant(c) => c is Int,
    }
}

/// `r` is the operand that `o` is lowered to.
pub open spec fn lowered(o: mir::Operand, r: Operand) -> bool {
    match o {
        mir::Operand::Temporary(t) => r matches Operand::Var(Ident::Temp(n)) && n@ == base26(
            (t.0 + 1) as nat,
        ),
        mir::Operand::Data(d) => r matches Operand::Var(Ident::Global(n)) && n@ == data_label(d),
        mir::Operand::Constant(mir::Constant::Int(v, _)) => r == Operand::Const(
            Const::Int(Sign::Plain, v),
        ),
        _ => false,
    }
}

/// The items of a string's data: its text as bytes, then a zero byte.
pub open spec fn string_items(items: Seq<(ExtTy, DataItem)>, value: mir::DataValue) -> bool {
    match value {
        mir::DataValue::String(text) => {
            &&& items.len() == 2
            &&& items[0].0 == ExtTy::Byte
            &&& match items[0].1 {
                DataItem::String(t) => t@ == text@,
                _ => false,
            }
            &&& items[1].0 == ExtTy::Byte
            &&& items[1].1 == DataItem::Const(Const::Int(Sign::Plain, 0))
        },
        mir::DataValue::Bytes(_) => false,
    }
}

/// Lowers the parts of the mid-level representation that need no types, and hands out the
/// temporaries that the lowering adds.
pub struct Builder {
    tmp_idx: usize,
}

impl Builder {
    /// The number the next added temporary gets.
    pub closed spec fn next_temp(&self) -> usize {
        self.tmp_idx
    }

    pub fn new() -> (r: Self)
        ensures
            r.next_temp() == 0,
    {
        Builder { tmp_idx: 0 }
    }

    /// A fresh temporary.
    pub fn new_temp(&mut self) -> (r: TempId)
        requires
            old(self).next_temp() < usize::MAX,
        ensures
            r.0 == old(self).next_temp(),
            final(self).next_temp() == old(self).next_temp() + 1,
    {
        let idx = self.tmp_idx;
        self.tmp_idx += 1;
        TempId(idx)
    }

    /// An integer constant.
    pub fn lower_const(&self, constant: &mir::Constant) -> (r: Const)
        requires
            *constant is Int,
        ensures
            *constant matches mir::Constant::Int(v, _) && r == Const::Int(Sign::Plain, v),
    {
        match constant {
            mir::Constant::Int(val, _) => Const::int_lit(*val),
            _ => Const::int_lit(0),
        }
    }

    pub fn lower_operand(&self, operand: &mir::Operand) -> (r: Operand)
        requires
            lowerable(*operand),
        ensures
            lowered(*operand, r),
    {
        match operand {
            mir::Operand::Temporary(id) => id.into_operand(),
            mir::Operand::Data(id) => Operand::Var(data_name(*id)),
            mir::Operand::Constant(constant) => Operand::Const(self.lower_const(constant)),
        }
    }

    /// The jump that ends a block.
    pub fn lower_term(&self, term: &mir::Terminator) -> (r: Jump)
        requires
            match *term {
                mir::Terminator::Goto(_) => true,
                mir::Terminator::Return(o) => lowerable(o),
                mir::Terminator::Branch { cond, .. } => lowerable(cond),
            },
        ensures
            match *term {
                mir::Terminator::Goto(b) => r matches Jump::Jmp(Ident::Block(n)) && n@ == block_label(b),
                mir::Terminator::Return(o) => r matches Jump::Ret(x) && lowered(o, x),
                mir::Terminator::Branch { cond, consequence, alternative } => r matches Jump::Jnz(
                    x,
                    Ident::Block(n1),
                    Ident::Block(n2),
                ) && lowered(cond, x) && n1@ == block_label(consequence) && n2@ == block_label(
                    alternative,
                ),
            },
    {
        match term {
            mir::Terminator::Goto(block_id) => Jump::Jmp(block_name(block_id)),
            mir::Terminator::Return(operand) => Jump::Ret(self.lower_operand(operand)),
            mir::Terminator::Branch { cond, consequence, alternative } => Jump::Jnz(
                self.lower_operand(cond),
                block_name(consequence),
                block_name(alternative),
            ),
        }
    }

    /// A string as data: its bytes and a terminating zero.
    pub fn lower_data(&self, data: &mir::Data) -> (r: Data)
        requires
            data.value is String,
        ensures
            r.linkage is None,
            r.align is None,
            r.ident matches Ident::Global(n) && n@ == data_label(data.id),
            r.value matches DataValue::Data(items) && string_items(items@, data.value),
    {
        let text = match &data.value {
            mir::DataValue::String(text) => text.clone(),
            mir::DataValue::Bytes(_) => String::new(),
        };
        Data {
            linkage: None,
            ident: data_name(data.id),
            align: None,
            value: DataValue::Data(
                vec![
                    (ExtTy::Byte, DataItem::String(text)),
                    (ExtTy::Byte, DataItem::Const(Const::int_lit(0))),
                ],
            ),
        }
    }
}

/// The temporaries of a function and those the lowering adds never share a name, and two
/// different temporaries of either kind never share a name.
pub proof fn lemma_temp_names_distinct(a: mir::TempId, b: mir::TempId, x: TempId, y: TempId)
    requires
        a.nameable(),
        b.nameable(),
        x.nameable(),
        y.nameable(),
    ensures
        a.temp_name() != x.temp_name(),
        a != b ==> a.temp_name() != b.temp_name(),
        x.0 != y.0 ==> x.temp_name() != y.temp_name(),
{
    reveal_strlit("_");
    let an = (a.0 + 1) as nat;
    lemma_base26_lowercase(an);
    assert(base26(an).len() > 0);
    assert(x.temp_name()[0] == '_');
    assert('a' <= base26(an)[0] <= 'z');
    if a != b && a.temp_name() == b.temp_name() {
        lemma_base26_injective(an, (b.0 + 1) as nat);
    }
    if x.0 != y.0 && x.temp_name() == y.temp_name() {
        let xn = (x.0 + 26 * 26 + 1) as nat;
        let yn = (y.0 + 26 * 26 + 1) as nat;
        assert(base26(xn) =~= x.temp_name().skip(1));
        assert(base26(yn) =~= y.temp_name().skip(1));
        lemma_base26_injective(xn, yn);
    }
}

} // verus!
