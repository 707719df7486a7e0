//! The intermediate language of the QBE compiler back end: its types, with their sizes and
//! alignments, and its definitions.
use vstd::prelude::*;

use std::rc::Rc;

pub mod fmt;
pub mod mnemonics;
pub mod lower;

verus! {

pub type Alignment = u64;

pub type Size = u64;

pub type Offset = u64;

#[derive(Debug, PartialEq, Eq, Clone)]
pub enum Ident {
    Ty(String),
    Global(String),
    Temp(String),
    Block(String),
}

impl Ident {
    pub fn ty(value: String) -> (r: Self)
        ensures
            r matches Ident::Ty(v) && v@ == value@,
    {
        Self::Ty(value)
    }

    pub fn global(value: String) -> (r: Self)
        ensures
            r matches Ident::Global(v) && v@ == value@,
    {
        Self::Global(value)
    }

    pub fn temp(value: String) -> (r: Self)
        ensures
            r matches Ident::Temp(v) && v@ == value@,
    {
        Self::Temp(value)
    }

    pub fn block(value: String) -> (r: Self)
        ensures
            r matches Ident::Block(v) && v@ == value@,
    {
        Self::Block(value)
    }

    /// The name without its sigil.
    pub open spec fn name(self) -> Seq<char> {
        match self {
            Ident::Ty(inner) => inner@,
            Ident::Global(inner) => inner@,
            Ident::Temp(inner) => inner@,
            Ident::Block(inner) => inner@,
        }
    }

    pub fn as_str(&self) -> (r: &str)
        ensures
            r@ == self.name(),
    {
        match self {
            Ident::Ty(inner) => inner.as_str(),
            Ident::Global(inner) => inner.as_str(),
            Ident::Temp(inner) => inner.as_str(),
            Ident::Block(inner) => inner.as_str(),
        }
    }
}

#[derive(Debug, Clone, Copy, PartialEq, Eq, Structural)]
pub enum BaseTy {
    /// 32-bit int
    Word,
    /// 64-bit int
    Long,
    /// 32-bit float
    Single,
    /// 64-bit float
    Double,
}

pub open spec fn base_size(t: BaseTy) -> int {
    match t {
        BaseTy::Word | BaseTy::Single => 4,
        BaseTy::Long | BaseTy::Double => 8,
    }
}

impl BaseTy {
    /// size in bytes
    pub fn size(&self) -> (r: Size)
        ensures
            r == base_size(*self),
    {
        match self {
            Self::Word | Self::Single => 4,
            Self::Long | Self::Double => 8,
        }
    }
}

#[derive(Debug, Clone, Copy, PartialEq, Eq, Structural)]
pub enum ExtTy {
    /// base type
    Base(BaseTy),
    /// 8-bit int
    Byte,
    /// 16-bit int
    HalfWord,
}

pub open spec fn ext_size(t: ExtTy) -> int {
    match t {
        ExtTy::Base(base_ty) => base_size(base_ty),
        ExtTy::Byte => 1,
        ExtTy::HalfWord => 2,
    }
}

impl ExtTy {
    /// size in bytes
    pub fn size(&self) -> (r: Size)
        ensures
            r == ext_size(*self),
    {
        match self {
            Self::Base(base_ty) => base_ty.size(),
            Self::Byte => 1,
            Self::HalfWord => 2,
        }
    }
}

#[derive(Debug, Clone, Copy, PartialEq, Eq, Structural)]
pub enum SubWordTy {
    SignedByte,
    UnsignedByte,
    SingedHalfWord,
    UnsingedHalfWord,
}

pub open spec fn sub_word_size(t: SubWordTy) -> int {
    match t {
        SubWordTy::SignedByte | SubWordTy::UnsignedByte => 1,
        SubWordTy::SingedHalfWord | SubWordTy::UnsingedHalfWord => 2,
    }
}

impl SubWordTy {
    /// size in bytes
    pub fn size(&self) -> (r: Size)
        ensures
            r == sub_word_size(*self),
    {
        match self {
            Self::SignedByte | Self::UnsignedByte => 1,
            Self::SingedHalfWord | Self::UnsingedHalfWord => 2,
        }
    }
}

/// A second handle on a shared type definition (`Rc::clone`).
#[verifier::external_body]
fn share_ty_def(ty_def: &Rc<TyDef>) -> (r: Rc<TyDef>)
    ensures
        *r == **ty_def,
{
    Rc::clone(ty_def)
}

#[derive(Debug)]
pub enum AbiTy {
    Base(BaseTy),
    SubWord(SubWordTy),
    Aggregate(Rc<TyDef>),
}

impl AbiTy {
    /// size in bytes
    pub fn size(&self) -> (r: Size)
        requires
            match self {
                AbiTy::Aggregate(ty_def) => ty_fits(**ty_def),
                _ => true,
            },
        ensures
            r == abi_size(*self),
    {
        match self {
            AbiTy::Base(base_ty) => base_ty.size(),
            AbiTy::SubWord(sub_word_ty) => sub_word_ty.size(),
            AbiTy::Aggregate(ty_def) => {
                proof {
                    lemma_ty_fits_size(&**ty_def);
                }
                ty_def.size()
            },
        }
    }

    pub fn align(&self) -> (r: Alignment)
        requires
            match self {
                AbiTy::Aggregate(ty_def) => ty_fits(**ty_def),
                _ => true,
            },
        ensures
            r == abi_size(*self),
    {
        self.size()
    }

    /// The base type that values of this type are passed as.
    pub fn as_base(&self) -> (r: BaseTy)
        ensures
            r == match *self {
                AbiTy::Base(base_ty) => base_ty,
                AbiTy::SubWord(_) => BaseTy::Word,
                AbiTy::Aggregate(_) => BaseTy::Long,
            },
    {
        match self {
            AbiTy::Base(base_ty) => *base_ty,
            AbiTy::SubWord(_) => BaseTy::Word,
            AbiTy::Aggregate(_) => BaseTy::Long,
        }
    }

    /// The type as a field of an aggregate; a sub-word type has no such form.
    pub fn as_sub_ty(&self) -> (r: SubTy)
        requires
            !(self is SubWord),
        ensures
            r.align.is_none(),
            match *self {
                AbiTy::Base(base_ty) => r.kind == SubTyKind::Extended(ExtTy::Base(base_ty)),
                AbiTy::Aggregate(ty_def) => r.kind matches SubTyKind::Aggregate(t) && *t == *ty_def,
                AbiTy::SubWord(_) => false,
            },
    {
        let kind = match self {
            AbiTy::Base(base_ty) => SubTyKind::Extended(ExtTy::Base(*base_ty)),
            AbiTy::Aggregate(ty_def) => SubTyKind::Aggregate(share_ty_def(ty_def)),
            AbiTy::SubWord(_) => SubTyKind::Extended(ExtTy::Byte),
        };
        SubTy { kind, align: None }
    }

    pub fn as_aggregate(&self) -> (r: Option<&TyDef>)
        ensures
            match *self {
                AbiTy::Aggregate(ty_def) => r == Some(&*ty_def),
                _ => r.is_none(),
            },
    {
        match self {
            Self::Aggregate(ty_def) => Some(&**ty_def),
            _ => None,
        }
    }
}

#[derive(Debug)]
pub enum SubTyKind {
    Extended(ExtTy),
    Aggregate(Rc<TyDef>),
}

/// A field of an aggregate: its type and an alignment that overrides the natural one.
#[derive(Debug)]
pub struct SubTy {
    pub kind: SubTyKind,
    pub align: Option<Alignment>,
}

#[derive(Debug)]
#[allow(inconsistent_fields)]
pub enum TyDef {
    Regular { ident: Ident, align: Option<Alignment>, items: Vec<(SubTy, u64)> },
    Union { ident: Ident, align: Option<Alignment>, variants: Vec<Vec<(SubTy, u64)>> },
    Opaque { ident: Ident, align: Alignment, size: Size },
}

// ---------------------------------------------------------------------------------------------
// Sizes and alignments, as integers.
pub open spec fn abi_size(t: AbiTy) -> int {
    match t {
        AbiTy::Base(base_ty) => base_size(base_ty),
        AbiTy::SubWord(sub_word_ty) => sub_word_size(sub_word_ty),
        AbiTy::Aggregate(ty_def) => ty_size(*ty_def),
    }
}

/// The bytes of padding that bring `offset` up to a multiple of `align`.
pub open spec fn pad(offset: int, align: int) -> int {
    (align - offset % align) % align
}

pub open spec fn nat_max(a: int, b: int) -> int {
    if a >= b {
        a
    } else {
        b
    }
}

pub open spec fn sub_size(s: SubTy) -> int
    decreases s, 0int,
{
    match s.kind {
        SubTyKind::Extended(ext_ty) => ext_size(ext_ty),
        SubTyKind::Aggregate(ty_def) => ty_size(*ty_def),
    }
}

pub open spec fn sub_align(s: SubTy) -> int
    decreases s, 1int,
{
    match s.align {
        Some(a) => a as int,
        None => sub_size(s),
    }
}

/// The offset just past the last of `items`, each placed at the next multiple of its
/// alignment and taking `repeat` times its size.
pub open spec fn items_end(items: Seq<(SubTy, u64)>) -> int
    decreases items, 0int,
{
    if items.len() == 0 {
        0
    } else {
        let o = items_end(items.drop_last());
        o + pad(o, sub_align(items.last().0)) + items.last().1 * sub_size(items.last().0)
    }
}

/// The largest alignment of the items, or 1 when there are none.
pub open spec fn items_align(items: Seq<(SubTy, u64)>) -> int
    decreases items, 0int,
{
    if items.len() == 0 {
        1
    } else if items.len() == 1 {
        sub_align(items[0].0)
    } else {
        nat_max(items_align(items.drop_last()), sub_align(items.last().0))
    }
}

/// The largest alignment of the variants, or 1 when there are none.
pub open spec fn variants_align(variants: Seq<Vec<(SubTy, u64)>>) -> int
    decreases variants, 0int,
{
    if variants.len() == 0 {
        1
    } else if variants.len() == 1 {
        items_align(variants[0]@)
    } else {
        nat_max(variants_align(variants.drop_last()), items_align(variants.last()@))
    }
}

/// The largest padded size of the variants, or 0 when there are none.
pub open spec fn variants_size(variants: Seq<Vec<(SubTy, u64)>>, align: int) -> int
    decreases variants, 0int,
{
    if variants.len() == 0 {
        0
    } else {
        let o = items_end(variants.last()@);
        nat_max(variants_size(variants.drop_last(), align), o + pad(o, align))
    }
}

pub open spec fn ty_align(t: TyDef) -> int
    decreases t, 1int,
{
    match t {
        TyDef::Regular { align, items, .. } => match align {
            Some(a) => a as int,
            None => items_align(items@),
        },
        TyDef::Union { align, variants, .. } => match align {
            Some(a) => a as int,
            None => variants_align(variants@),
        },
        TyDef::Opaque { align, .. } => align as int,
    }
}

pub open spec fn ty_size(t: TyDef) -> int
    decreases t, 2int,
{
    match t {
        TyDef::Regular { items, .. } => {
            let o = items_end(items@);
            o + pad(o, ty_align(t))
        },
        TyDef::Union { variants, .. } => variants_size(variants@, ty_align(t)),
        TyDef::Opaque { size, .. } => size as int,
    }
}

// ---------------------------------------------------------------------------------------------
// When the layout of a type can be computed: every alignment is positive and every size and
// offset fits in 64 bits.
pub open spec fn sub_fits(s: SubTy) -> bool
    decreases s,
{
    &&& match s.kind {
        SubTyKind::Extended(_) => true,
        SubTyKind::Aggregate(ty_def) => ty_fits(*ty_def),
    }
    &&& 0 < sub_align(s)
}

pub open spec fn items_fit(items: Seq<(SubTy, u64)>) -> bool
    decreases items,
{
    if items.len() == 0 {
        true
    } else {
        &&& items_fit(items.drop_last())
        &&& sub_fits(items.last().0)
        &&& items_end(items) <= u64::MAX
    }
}

pub open spec fn variants_fit(variants: Seq<Vec<(SubTy, u64)>>, align: int) -> bool
    decreases variants,
{
    if variants.len() == 0 {
        true
    } else {
        let o = items_end(variants.last()@);
        &&& variants_fit(variants.drop_last(), align)
        &&& items_fit(variants.last()@)
        &&& o + pad(o, align) <= u64::MAX
    }
}

pub open spec fn ty_fits(t: TyDef) -> bool
    decreases t,
{
    match t {
        TyDef::Regular { items, .. } => {
            let o = items_end(items@);
            &&& items_fit(items@)
            &&& 0 < ty_align(t) <= u64::MAX
            &&& o + pad(o, ty_align(t)) <= u64::MAX
        },
        TyDef::Union { variants, .. } => {
            &&& variants_fit(variants@, ty_align(t))
            &&& 0 < ty_align(t) <= u64::MAX
        },
        TyDef::Opaque { .. } => true,
    }
}

// ---------------------------------------------------------------------------------------------
// Facts about layouts that can be computed.
proof fn lemma_sub_fits(s: SubTy)
    requires
        sub_fits(s),
    ensures
        0 <= sub_size(s) <= u64::MAX,
        0 < sub_align(s) <= u64::MAX,
    decreases s,
{
    match s.kind {
        SubTyKind::Extended(_) => {},
        SubTyKind::Aggregate(ty_def) => {
            lemma_ty_fits_size(&*ty_def);
        },
    }
}

proof fn lemma_items_fit(items: Seq<(SubTy, u64)>)
    requires
        items_fit(items),
    ensures
        0 <= items_end(items) <= u64::MAX,
        forall|k: int| 0 <= k <= items.len() ==> items_fit(#[trigger] items.take(k)),
        forall|k: int| 0 <= k <= items.len() ==> #[trigger] items_end(items.take(k)) <= items_end(items),
        forall|i: int| 0 <= i < items.len() ==> sub_fits(#[trigger] items[i].0),
    decreases items,
{
    if items.len() > 0 {
        let prefix = items.drop_last();
        lemma_items_fit(prefix);
        lemma_sub_fits(items.last().0);
        let o = items_end(prefix);
        let a = sub_align(items.last().0);
        assert(0 <= pad(o, a)) by (nonlinear_arith)
            requires
                a > 0,
        ;
        assert(0 <= items.last().1 * sub_size(items.last().0)) by (nonlinear_arith)
            requires
                0 <= sub_size(items.last().0),
        ;
        assert(items.take(items.len() as int) =~= items);
        assert forall|k: int| 0 <= k < items.len() implies #[trigger] items.take(k) == prefix.take(k) by {
            assert(items.take(k) =~= prefix.take(k));
        }
        assert forall|i: int| 0 <= i < items.len() implies sub_fits(#[trigger] items[i].0) by {
            if i < items.len() - 1 {
                assert(items[i] == prefix[i]);
            }
        }
    }
}

proof fn lemma_variants_fit(variants: Seq<Vec<(SubTy, u64)>>, align: int)
    requires
        variants_fit(variants, align),
        0 < align,
    ensures
        0 <= variants_size(variants, align) <= u64::MAX,
        forall|k: int| 0 <= k <= variants.len() ==> variants_fit(#[trigger] variants.take(k), align),
        forall|i: int|
            0 <= i < variants.len() ==> {
                &&& items_fit(#[trigger] variants[i]@)
                &&& items_end(variants[i]@) + pad(items_end(variants[i]@), align) <= u64::MAX
            },
    decreases variants,
{
    if variants.len() > 0 {
        let prefix = variants.drop_last();
        lemma_variants_fit(prefix, align);
        lemma_items_fit(variants.last()@);
        let o = items_end(variants.last()@);
        assert(0 <= pad(o, align)) by (nonlinear_arith)
            requires
                align > 0,
        ;
        assert(variants.take(variants.len() as int) =~= variants);
        assert forall|k: int| 0 <= k < variants.len() implies #[trigger] variants.take(k)
            == prefix.take(k) by {
            assert(variants.take(k) =~= prefix.take(k));
        }
        assert forall|i: int| 0 <= i < variants.len() implies {
            &&& items_fit(#[trigger] variants[i]@)
            &&& items_end(variants[i]@) + pad(items_end(variants[i]@), align) <= u64::MAX
        } by {
            if i < variants.len() - 1 {
                assert(variants[i] == prefix[i]);
            }
        }
    }
}

proof fn lemma_items_align(items: Seq<(SubTy, u64)>)
    requires
        forall|i: int| 0 <= i < items.len() ==> sub_fits(#[trigger] items[i].0),
    ensures
        0 < items_align(items) <= u64::MAX,
    decreases items,
{
    if items.len() == 1 {
        lemma_sub_fits(items[0].0);
    } else if items.len() > 1 {
        let prefix = items.drop_last();
        assert forall|i: int| 0 <= i < prefix.len() implies sub_fits(#[trigger] prefix[i].0) by {
            assert(prefix[i] == items[i]);
        }
        lemma_items_align(prefix);
        lemma_sub_fits(items.last().0);
    }
}

proof fn lemma_ty_fits_size(t: &TyDef)
    requires
        ty_fits(*t),
    ensures
        0 <= ty_size(*t) <= u64::MAX,
    decreases t,
{
    match t {
        TyDef::Regular { items, .. } => {
            lemma_items_fit(items@);
            let o = items_end(items@);
            let a = ty_align(*t);
            assert(0 <= pad(o, a)) by (nonlinear_arith)
                requires
                    a > 0,
            ;
        },
        TyDef::Union { variants, .. } => {
            lemma_variants_fit(variants@, ty_align(*t));
        },
        TyDef::Opaque { .. } => {},
    }
}

/// The padding in 64-bit arithmetic.
fn padding(offset: u64, align: u64) -> (r: u64)
    requires
        align > 0,
    ensures
        r == pad(offset as int, align as int),
        r < align,
{
    (align - (offset % align)) % align
}

impl SubTy {
    pub fn size(&self) -> (r: Size)
        requires
            sub_fits(*self),
        ensures
            r == sub_size(*self),
        decreases self, 0nat,
    {
        proof {
            lemma_sub_fits(*self);
        }
        match &self.kind {
            SubTyKind::Extended(ext_ty) => ext_ty.size(),
            SubTyKind::Aggregate(ty_def) => ty_def.size(),
        }
    }

    pub fn align(&self) -> (r: Alignment)
        requires
            sub_fits(*self),
        ensures
            r == sub_align(*self),
        decreases self, 1nat,
    {
        match self.align {
            Some(a) => a,
            None => self.size(),
        }
    }
}

/// The offset just past the last item.
fn items_offset(items: &Vec<(SubTy, u64)>) -> (r: u64)
    requires
        items_fit(items@),
    ensures
        r == items_end(items@),
    decreases items, 0nat,
{
    proof {
        lemma_items_fit(items@);
    }
    let mut offset: u64 = 0;
    let mut k: usize = 0;
    proof {
        assert(items@.take(0) =~= Seq::<(SubTy, u64)>::empty());
    }
    while k < items.len()
        invariant
            k <= items@.len(),
            items_fit(items@),
            forall|j: int| 0 <= j <= items@.len() ==> items_fit(#[trigger] items@.take(j)),
            offset == items_end(items@.take(k as int)),
        decreases items@.len() - k,
    {
        let ghost t = items@.take(k + 1);
        proof {
            assert(t.drop_last() =~= items@.take(k as int));
            assert(t.last() == items@[k as int]);
            assert(items_fit(t));
            lemma_sub_fits(t.last().0);
        }
        let (item, repeat) = &items[k];
        let align = item.align();
        let size = *repeat * item.size();
        let padding = padding(offset, align);
        offset = offset + padding + size;
        k += 1;
    }
    proof {
        assert(items@.take(items@.len() as int) =~= items@);
    }
    offset
}

/// The largest alignment of the items, or 1 when there are none.
fn items_max_align(items: &Vec<(SubTy, u64)>) -> (r: u64)
    requires
        forall|i: int| 0 <= i < items@.len() ==> sub_fits(#[trigger] items@[i].0),
    ensures
        r == items_align(items@),
    decreases items, 0nat,
{
    if items.len() == 0 {
        return 1;
    }
    let mut best = items[0].0.align();
    let mut k: usize = 1;
    proof {
        assert(items@.take(1).drop_last() =~= Seq::<(SubTy, u64)>::empty());
        assert(items@.take(1)[0] == items@[0]);
    }
    while k < items.len()
        invariant
            1 <= k <= items@.len(),
            forall|i: int| 0 <= i < items@.len() ==> sub_fits(#[trigger] items@[i].0),
            best == items_align(items@.take(k as int)),
        decreases items@.len() - k,
    {
        let a = items[k].0.align();
        proof {
            let t = items@.take(k + 1);
            assert(t.drop_last() =~= items@.take(k as int));
            assert(t.last() == items@[k as int]);
        }
        if a > best {
            best = a;
        }
        k += 1;
    }
    proof {
        assert(items@.take(items@.len() as int) =~= items@);
    }
    best
}

impl TyDef {
    pub fn ident(&self) -> (r: &Ident)
        ensures
            *r == match *self {
                TyDef::Regular { ident, .. } => ident,
                TyDef::Union { ident, .. } => ident,
                TyDef::Opaque { ident, .. } => ident,
            },
    {
        match self {
            TyDef::Regular { ident, .. } => ident,
            TyDef::Union { ident, .. } => ident,
            TyDef::Opaque { ident, .. } => ident,
        }
    }

    /// The alignment: the declared one, else the largest alignment of the fields (1 when
    /// there are none).
    pub fn align(&self) -> (r: Alignment)
        requires
            ty_fits(*self),
        ensures
            r == ty_align(*self),
        decreases self, 0nat,
    {
        match self {
            TyDef::Regular { align, items, .. } => match align {
                Some(a) => *a,
                None => {
                    proof {
                        lemma_items_fit(items@);
                    }
                    items_max_align(items)
                },
            },
            TyDef::Union { align, variants, .. } => match align {
                Some(a) => *a,
                None => {
                    proof {
                        lemma_variants_fit(variants@, ty_align(*self));
                    }
                    if variants.len() == 0 {
                        return 1;
                    }
                    proof {
                        lemma_items_fit(variants@[0]@);
                    }
                    let mut best = items_max_align(&variants[0]);
                    let mut k: usize = 1;
                    proof {
                        assert(variants@.take(1).drop_last() =~= Seq::<Vec<(SubTy, u64)>>::empty());
                        assert(variants@.take(1)[0] == variants@[0]);
                    }
                    while k < variants.len()
                        invariant
                            1 <= k <= variants@.len(),
                            self is Union,
                            *variants == self->variants,
                            forall|i: int|
                                0 <= i < variants@.len() ==> items_fit(#[trigger] variants@[i]@),
                            best == variants_align(variants@.take(k as int)),
                        decreases variants@.len() - k,
                    {
                        proof {
                            lemma_items_fit(variants@[k as int]@);
                        }
                        proof {
                            assert(decreases_to!(*self => self->variants));
                            assert(decreases_to!(self->variants => variants@));
                            assert(decreases_to!(variants@ => variants@[k as int]));
                            assert(decreases_to!(*self => variants@[k as int]));
                        }
                        let a = items_max_align(&variants[k]);
                        proof {
                            let t = variants@.take(k + 1);
                            assert(t.drop_last() =~= variants@.take(k as int));
                            assert(t.last() == variants@[k as int]);
                        }
                        if a > best {
                            best = a;
                        }
                        k += 1;
                    }
                    proof {
                        assert(variants@.take(variants@.len() as int) =~= variants@);
                    }
                    best
                },
            },
            TyDef::Opaque { align, .. } => *align,
        }
    }

    /// The size: the fields laid out in order and padded to the alignment; for a union, the
    /// largest of its variants.
    pub fn size(&self) -> (r: Size)
        requires
            ty_fits(*self),
        ensures
            r == ty_size(*self),
        decreases self, 1nat,
    {
        match self {
            TyDef::Regular { items, .. } => {
                let offset = items_offset(items);
                let align = self.align();
                offset + padding(offset, align)
            },
            TyDef::Union { variants, .. } => {
                let align = self.align();
                proof {
                    lemma_variants_fit(variants@, align as int);
                }
                let mut best: u64 = 0;
                let mut k: usize = 0;
                proof {
                    assert(variants@.take(0) =~= Seq::<Vec<(SubTy, u64)>>::empty());
                }
                while k < variants.len()
                    invariant
                        k <= variants@.len(),
                        self is Union,
                        *variants == self->variants,
                        align > 0,
                        forall|i: int|
                            0 <= i < variants@.len() ==> {
                                &&& items_fit(#[trigger] variants@[i]@)
                                &&& items_end(variants@[i]@) + pad(items_end(variants@[i]@), align as int)
                                    <= u64::MAX
                            },
                        best == variants_size(variants@.take(k as int), align as int),
                    decreases variants@.len() - k,
                {
                    proof {
                        assert(decreases_to!(*self => self->variants));
                            assert(decreases_to!(self->variants => variants@));
                            assert(decreases_to!(variants@ => variants@[k as int]));
                            assert(decreases_to!(*self => variants@[k as int]));
                    }
                    let offset = items_offset(&variants[k]);
                    let size = offset + padding(offset, align);
                    proof {
                        let t = variants@.take(k + 1);
                        assert(t.drop_last() =~= variants@.take(k as int));
                        assert(t.last() == variants@[k as int]);
                    }
                    if size > best {
                        best = size;
                    }
                    k += 1;
                }
                proof {
                    assert(variants@.take(variants@.len() as int) =~= variants@);
                }
                best
            },
            TyDef::Opaque { size, .. } => *size,
        }
    }
}

/// Where field `id` starts: the end of the fields before it, brought up to the field's
/// alignment; past the last field, the end of them all.
pub open spec fn field_offset(items: Seq<(SubTy, u64)>, id: int) -> int {
    if 0 <= id < items.len() {
        let o = items_end(items.take(id));
        o + pad(o, sub_align(items[id].0))
    } else {
        items_end(items)
    }
}

/// The fields up to and including field `id`: all of them when it lies past the end.
pub open spec fn through(id: u32, len: nat) -> int {
    if (id as int) < len {
        id as int + 1
    } else {
        len as int
    }
}

impl TyDef {
    /// get byte offset for accessing field
    pub fn offset_for(&self, id: u32) -> (r: Offset)
        requires
            self is Regular,
            items_fit(self->items@.take(through(id, self->items@.len()))),
        ensures
            r == field_offset(self->items@, id as int),
    {
        match self {
            TyDef::Regular { items, .. } => {
                let n: usize = if (id as usize) < items.len() {
                    id as usize
                } else {
                    items.len()
                };
                let ghost whole = items@.take(through(id, items@.len()));
                proof {
                    lemma_items_fit(whole);
                    assert(items@.take(0) =~= Seq::<(SubTy, u64)>::empty());
                }
                let mut offset: u64 = 0;
                let mut k: usize = 0;
                while k < n
                    invariant
                        n <= items@.len(),
                        n <= whole.len(),
                        k <= n,
                        whole == items@.take(through(id, items@.len())),
                        items_fit(whole),
                        0 <= items_end(whole) <= u64::MAX,
                        forall|j: int| 0 <= j <= whole.len() ==> items_fit(#[trigger] whole.take(j)),
                        forall|j: int|
                            0 <= j <= whole.len() ==> #[trigger] items_end(whole.take(j)) <= items_end(whole),
                        forall|i: int| 0 <= i < whole.len() ==> sub_fits(#[trigger] whole[i].0),
                        offset == items_end(items@.take(k as int)),
                    decreases n - k,
                {
                    proof {
                        let t = items@.take(k + 1);
                        assert(whole.take(k + 1) =~= t);
                        assert(t.drop_last() =~= items@.take(k as int));
                        assert(t.last() == items@[k as int]);
                        assert(whole[k as int] == items@[k as int]);
                        lemma_sub_fits(t.last().0);
                        let o = items_end(t.drop_last());
                        let a = sub_align(t.last().0);
                        assert(0 <= pad(o, a)) by (nonlinear_arith)
                            requires
                                a > 0,
                        ;
                        assert(0 <= t.last().1 * sub_size(t.last().0)) by (nonlinear_arith)
                            requires
                                0 <= sub_size(t.last().0),
                        ;
                    }
                    let (item, repeat) = &items[k];
                    let align = item.align();
                    let size = *repeat * item.size();
                    let padding = padding(offset, align);
                    offset = offset + padding + size;
                    k += 1;
                }
                if n < items.len() {
                    proof {
                        assert(whole.drop_last() =~= items@.take(n as int));
                        assert(whole.last() == items@[n as int]);
                        assert(whole.take(whole.len() as int) =~= whole);
                        lemma_sub_fits(whole.last().0);
                        let o = items_end(whole.drop_last());
                        let a = sub_align(whole.last().0);
                        assert(0 <= pad(o, a)) by (nonlinear_arith)
                            requires
                                a > 0,
                        ;
                        assert(0 <= whole.last().1 * sub_size(whole.last().0)) by (nonlinear_arith)
                            requires
                                0 <= sub_size(whole.last().0),
                        ;
                    }
                    let align = items[n].0.align();
                    offset + padding(offset, align)
                } else {
                    proof {
                        assert(items@.take(n as int) =~= items@);
                    }
                    offset
                }
            },
            TyDef::Union { .. } => 0,
            TyDef::Opaque { .. } => 0,
        }
    }
}

// LINKAGE :=
//     'export' [NL]
//   | 'thread' [NL]
#[derive(Debug, Clone, Copy, PartialEq, Eq, Structural)]
pub enum Linkage {
    Export,
    Thread,
}

#[derive(Debug)]
pub struct RegularParam(pub AbiTy, pub Operand);

#[derive(Debug)]
pub enum Param {
    Regular(RegularParam),
    Env(Ident),
    VariadicMarker,
}

#[derive(Debug, Clone, Copy, PartialEq, Eq, Structural)]
pub enum Sign {
    Minus,
    /// no sign: the value is written as it is
    Plain,
}

#[derive(Debug, Clone, Copy, PartialEq, Eq, Structural)]
pub enum Precision {
    Single,
    Double,
}

// CONST :=
//     ['-'] NUMBER  # Decimal integer
//   | 's_' FP       # Single-precision float
//   | 'd_' FP       # Double-precision float
//   | $IDENT        # Global symbol
/// A constant operand. A floating-point constant is held as its decimal text.
#[derive(Debug)]
pub enum Const {
    Int(Sign, i128),
    Float(Precision, String),
    Ident(Ident),
}

impl Const {
    pub fn int_lit(val: i128) -> (r: Self)
        ensures
            r == Const::Int(Sign::Plain, val),
    {
        Self::Int(Sign::Plain, val)
    }

    pub fn neg_int(val: i128) -> (r: Self)
        ensures
            r == Const::Int(Sign::Minus, val),
    {
        Self::Int(Sign::Minus, val)
    }
}

#[derive(Debug)]
pub enum Operand {
    Var(Ident),
    Const(Const),
}

/// A value that stands as an operand: a temporary of a function.
pub trait IntoOperand: Sized {
    /// Whether the value's number fits the naming scheme.
    spec fn nameable(&self) -> bool;

    /// The name of the temporary, without its sigil.
    spec fn temp_name(&self) -> Seq<char>;

    fn into_operand(self) -> (r: Operand)
        requires
            self.nameable(),
        ensures
            r matches Operand::Var(Ident::Temp(name)) && name@ == self.temp_name(),
    ;
}

#[derive(Debug, Clone, Copy, PartialEq, Eq, Structural)]
pub enum Cmp {
    /// Returns 1 if first value is less than second, signed comparison
    Slt,
    /// Returns 1 if first value is less than or equal to second, respecting signedness
    Sle,
    /// Returns 1 if first value is greater than second, respecting signedness
    Sgt,
    /// Returns 1 if first value is greater than or equal to second, respecting signedness
    Sge,
    /// Returns 1 if values are equal
    Eq,
    /// Returns 1 if values are not equal
    Ne,
    /// Returns 1 if both operands are not NaN (ordered comparison)
    O,
    /// Returns 1 if at least one operand is NaN (unordered comparison)
    Uo,
    /// Returns 1 if first value is less than second, unsigned comparison
    Ult,
    /// Returns 1 if first value is less than or equal to second, unsigned comparison
    Ule,
    /// Returns 1 if first value is greater than second, unsigned comparison
    Ugt,
    /// Returns 1 if first value is greater than or equal to second, unsigned comparison
    Uge,
}

#[derive(Debug)]
pub enum Instruction {
    /// Adds values of two temporaries together
    Add(Operand, Operand),
    /// Subtracts the second value from the first one
    Sub(Operand, Operand),
    /// Multiplies values of two temporaries
    Mul(Operand, Operand),
    /// Divides the first value by the second one
    Div(Operand, Operand),
    /// Returns a remainder from division
    Rem(Operand, Operand),
    /// Performs a comparion between values
    Cmp(AbiTy, Cmp, Operand, Operand),
    /// Performs a bitwise AND on values
    And(Operand, Operand),
    /// Performs a bitwise OR on values
    Or(Operand, Operand),
    /// Performs a bitwise XOR on operands
    Xor(Operand, Operand),
    /// Negates a value
    Neg(Operand),
    /// Copies an operand
    Copy(Operand),
    /// Calls a function: its name, its arguments and where the variadic marker stands among them
    Call(String, Vec<(AbiTy, Operand)>, Option<u64>),
    /// Allocates a 4-byte aligned area on the stack
    Alloc4(u32),
    /// Allocates a 8-byte aligned area on the stack
    Alloc8(u64),
    /// Allocates a 16-byte aligned area on the stack
    Alloc16(u128),
    /// Stores a value into memory pointed to by destination: `(type, destination, value)`
    Store(AbiTy, Operand, Operand),
    /// Loads a value from memory pointed to by source: `(type, source)`
    Load(AbiTy, Operand),
    /// Copies `n` bytes from the source address to the destination address:
    /// `(source, destination, n)`
    Blit(Operand, Operand, u64),
    /// Debug file.
    DbgFile(String),
    /// Debug line: a line number and an optional column.
    DbgLoc(u64, Option<u64>),
    /// Performs unsigned division of the first value by the second one
    Udiv(Operand, Operand),
    /// Returns the remainder from unsigned division
    Urem(Operand, Operand),
    /// Shift arithmetic right (preserves sign)
    Sar(Operand, Operand),
    /// Shift logical right (fills with zeros)
    Shr(Operand, Operand),
    /// Shift left (fills with zeros)
    Shl(Operand, Operand),
    /// Cast between integer and floating point of the same width
    Cast(Operand),
    /// Sign-extends a word to a long
    Extsw(Operand),
    /// Zero-extends a word to a long
    Extuw(Operand),
    /// Sign-extends a halfword to a word or long
    Extsh(Operand),
    /// Zero-extends a halfword to a word or long
    Extuh(Operand),
    /// Sign-extends a byte to a word or long
    Extsb(Operand),
    /// Zero-extends a byte to a word or long
    Extub(Operand),
    /// Extends a single-precision float to double-precision
    Exts(Operand),
    /// Truncates a double-precision float to single-precision
    Truncd(Operand),
    /// Converts a single-precision float to a signed integer
    Stosi(Operand),
    /// Converts a single-precision float to an unsigned integer
    Stoui(Operand),
    /// Converts a double-precision float to a signed integer
    Dtosi(Operand),
    /// Converts a double-precision float to an unsigned integer
    Dtoui(Operand),
    /// Converts a signed word to a float
    Swtof(Operand),
    /// Converts an unsigned word to a float
    Uwtof(Operand),
    /// Converts a signed long to a float
    Sltof(Operand),
    /// Converts an unsigned long to a float
    Ultof(Operand),
    /// Initializes a variable argument list
    Vastart(Operand),
    /// Fetches the next argument from a variable argument list
    Vaarg(AbiTy, Operand),
}

/// An IR statement
#[derive(Debug)]
pub enum Statement {
    Assign(Operand, BaseTy, Instruction),
    Volatile(Instruction),
}

#[derive(Debug)]
pub enum Jump {
    /// Unconditionally jumps to a block
    Jmp(Ident),
    /// Jumps to first block if a value is nonzero or to the second one otherwise
    Jnz(Operand, Ident, Ident),
    /// Return from a function
    Ret(Operand),
    /// Halt the program
    Hlt,
}

#[derive(Debug)]
pub struct Block {
    pub ident: Ident,
    pub phi_instructions: Vec<Statement>,
    pub instructions: Vec<Statement>,
    pub jump: Jump,
}

#[derive(Debug)]
pub struct Function {
    pub linkage: Option<Linkage>,
    pub ident: Ident,
    pub return_ty: Option<AbiTy>,
    pub params: Vec<Param>,
    pub blocks: Vec<Block>,
}

#[derive(Debug)]
pub enum DataItem {
    Ident(Ident, Option<Offset>),
    String(String),
    Const(Const),
}

#[derive(Debug)]
pub enum DataValue {
    Data(Vec<(ExtTy, DataItem)>),
    Zeroed(Size),
}

#[derive(Debug)]
pub struct Data {
    pub linkage: Option<Linkage>,
    pub ident: Ident,
    pub align: Option<Alignment>,
    pub value: DataValue,
}

#[derive(Debug)]
pub enum Definition {
    Ty(Rc<TyDef>),
    Data(Data),
    Fn(Function),
}

#[derive(Debug)]
pub struct Module {
    pub defs: Vec<Definition>,
}

impl Module {
    pub fn new() -> (r: Self)
        ensures
            r.defs@.len() == 0,
    {
        Module { defs: Vec::new() }
    }
}

} // verus!
