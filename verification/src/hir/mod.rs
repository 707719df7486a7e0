//! The high-level intermediate representation: the syntax tree with names resolved.
use vstd::prelude::*;

use crate::ast;
use crate::interner::Id;
use crate::lexer::source::Span;


verus! {

/// The id of a node of the high-level representation.
#[derive(Debug, Clone, Copy, PartialEq, Eq, Hash, Structural)]
pub struct HirId(pub u32);

impl HirId {
    /// The id that stands for "no node".
    pub fn dummy() -> (r: Self)
        ensures
            r.0 == u32::MAX,
    {
        HirId(u32::MAX)
    }
}

impl Id for HirId {
    open spec fn index(&self) -> u32 {
        self.0
    }

    fn new(inner: u32) -> (r: Self) {
        HirId(inner)
    }

    fn into_inner(self) -> (r: u32) {
        self.0
    }

    proof fn lemma_index_determines(a: Self, b: Self) {
    }
}

/// Whether a binding may be assigned to.
#[derive(Debug, Clone, Copy, PartialEq, Eq, Structural)]
pub enum Mutability {
    Immutable,
    Mutable,
}

impl Default for Mutability {
    fn default() -> (r: Self)
        ensures
            r == Mutability::Immutable,
    {
        Mutability::Immutable
    }
}

impl Mutability {
    pub fn is_mutable(&self) -> (r: bool)
        ensures
            r == (*self is Mutable),
    {
        match self {
            Mutability::Mutable => true,
            Mutability::Immutable => false,
        }
    }

    pub fn is_immutable(&self) -> (r: bool)
        ensures
            r == (*self is Immutable),
    {
        match self {
            Mutability::Immutable => true,
            Mutability::Mutable => false,
        }
    }
}

/// Whether a name is defined in this module or outside it.
#[derive(Debug, Clone, Copy, PartialEq, Eq, Structural)]
pub enum Locality {
    Local,
    Extern,
}

impl Default for Locality {
    fn default() -> (r: Self)
        ensures
            r == Locality::Local,
    {
        Locality::Local
    }
}

/// A name as written, borrowed from the syntax tree.
#[derive(Debug, Clone, Copy)]
pub struct Name<'ast> {
    pub id: HirId,
    pub span: &'ast Span,
    pub inner: &'ast str,
}

/// The name as it stands in the syntax tree, with no id of its own yet.
pub fn lower_name<'ast>(name: &'ast ast::Name) -> (r: Name<'ast>)
    ensures
        r.id == HirId(u32::MAX),
        *r.span == name.span,
        r.inner@ == name.inner@,
{
    Name { id: HirId::dummy(), span: &name.span, inner: name.inner.as_str() }
}

} // verus!
