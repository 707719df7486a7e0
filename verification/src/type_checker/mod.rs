//! Name resolution scopes and the ids that the type checker hands out.
use vstd::prelude::*;

use crate::ast::Ident;
use crate::interner::Id;
use crate::lexer::token::bytes_eq;
use vstd::utf8::{encode_utf8, encode_utf8_decode_utf8};

pub mod fmt;
pub mod mangle;

verus! {

/// The id of a definition.
#[derive(Debug, Clone, Copy, PartialEq, Eq, Hash, Structural)]
pub struct DefId(pub u32);

/// The id of a type.
#[derive(Debug, Clone, Copy, PartialEq, Eq, Hash, Structural)]
pub struct TypeId(pub u32);

/// The id of a field of a struct.
#[derive(Debug, Clone, Copy, PartialEq, Eq, Hash, Structural)]
pub struct FieldId(pub u32);

/// The id of an item associated with a type.
#[derive(Debug, Clone, Copy, PartialEq, Eq, Hash, Structural)]
pub struct ItemId(pub u32);

impl Id for DefId {
    open spec fn index(&self) -> u32 {
        self.0
    }

    fn new(inner: u32) -> (r: Self) {
        DefId(inner)
    }

    fn into_inner(self) -> (r: u32) {
        self.0
    }

    proof fn lemma_index_determines(a: Self, b: Self) {
    }
}

impl Id for TypeId {
    open spec fn index(&self) -> u32 {
        self.0
    }

    fn new(inner: u32) -> (r: Self) {
        TypeId(inner)
    }

    fn into_inner(self) -> (r: u32) {
        self.0
    }

    proof fn lemma_index_determines(a: Self, b: Self) {
    }
}

impl Id for FieldId {
    open spec fn index(&self) -> u32 {
        self.0
    }

    fn new(inner: u32) -> (r: Self) {
        FieldId(inner)
    }

    fn into_inner(self) -> (r: u32) {
        self.0
    }

    proof fn lemma_index_determines(a: Self, b: Self) {
    }
}

impl Id for ItemId {
    open spec fn index(&self) -> u32 {
        self.0
    }

    fn new(inner: u32) -> (r: Self) {
        ItemId(inner)
    }

    fn into_inner(self) -> (r: u32) {
        self.0
    }

    proof fn lemma_index_determines(a: Self, b: Self) {
    }
}

/// What a member access resolves to.
#[derive(Debug, Clone, Copy, PartialEq, Eq, Structural)]
pub enum MemberResolution {
    Field(FieldId),
    Item(ItemId),
}

/// The names defined in one block of code, looked up here before the enclosing scopes.
#[derive(Debug)]
pub struct Scope<'a> {
    parent: Option<&'a Scope<'a>>,
    definitions: Vec<(String, DefId)>,
}

/// The latest definition of `name` among `defs`.
pub open spec fn find(defs: Seq<(String, DefId)>, name: Seq<char>) -> Option<DefId>
    decreases defs.len(),
{
    if defs.len() == 0 {
        None
    } else if defs.last().0@ == name {
        Some(defs.last().1)
    } else {
        find(defs.drop_last(), name)
    }
}

/// Two texts are equal exactly when their UTF-8 bytes are.
proof fn lemma_same_bytes(a: Seq<char>, b: Seq<char>)
    requires
        encode_utf8(a) == encode_utf8(b),
    ensures
        a == b,
{
    encode_utf8_decode_utf8(a);
    encode_utf8_decode_utf8(b);
}

/// Whether `name` is spelled by the text of `s`.
fn same_name(s: &String, name: &str) -> (r: bool)
    ensures
        r == (s@ == name@),
{
    let r = bytes_eq(s.as_str().as_bytes(), name.as_bytes());
    proof {
        if r {
            lemma_same_bytes(s@, name@);
        }
    }
    r
}

impl<'a> Scope<'a> {
    /// The names defined in this scope itself.
    pub closed spec fn own(&self) -> Map<Seq<char>, DefId> {
        Map::new(
            |k: Seq<char>| find(self.definitions@, k) is Some,
            |k: Seq<char>| find(self.definitions@, k)->0,
        )
    }

    /// The enclosing scope.
    pub closed spec fn parent_scope(&self) -> Option<&'a Scope<'a>> {
        self.parent
    }

    /// The definition that `name` names here: this scope's own, else the enclosing scopes'.
    pub open spec fn resolve(&self, name: Seq<char>) -> Option<DefId>
        decreases self,
    {
        if self.own().contains_key(name) {
            Some(self.own()[name])
        } else {
            match self.parent_scope() {
                Some(p) => p.resolve(name),
                None => None,
            }
        }
    }

    pub fn new() -> (r: Self)
        ensures
            r.own() == Map::<Seq<char>, DefId>::empty(),
            r.parent_scope().is_none(),
    {
        let r = Scope { parent: None, definitions: Vec::new() };
        proof {
            assert(r.own() =~= Map::<Seq<char>, DefId>::empty());
        }
        r
    }

    /// Defines `name` here, replacing an earlier definition of it in this scope.
    pub fn define(&mut self, name: &str, def_id: DefId)
        ensures
            final(self).own() == old(self).own().insert(name@, def_id),
            final(self).parent_scope() == old(self).parent_scope(),
    {
        let ghost before = self.definitions@;
        self.definitions.push((name.to_owned(), def_id));
        proof {
            assert(self.definitions@.drop_last() =~= before);
            assert(self.own() =~= old(self).own().insert(name@, def_id));
        }
    }

    /// The definition that `ident` names in this scope or an enclosing one.
    pub fn get_definition(&self, ident: &Ident) -> (r: Option<&DefId>)
        ensures
            r.is_some() == self.resolve(ident.inner@).is_some(),
            r matches Some(d) ==> *d == self.resolve(ident.inner@)->0,
        decreases self,
    {
        let name = ident.inner.as_str();
        let mut i: usize = 0;
        while i < self.definitions.len()
            invariant
                i <= self.definitions@.len(),
                name@ == ident.inner@,
                forall|j: int|
                    self.definitions@.len() - i <= j < self.definitions@.len()
                        ==> #[trigger] self.definitions@[j].0@ != name@,
            decreases self.definitions@.len() - i,
        {
            let idx = self.definitions.len() - 1 - i;
            if same_name(&self.definitions[idx].0, name) {
                proof {
                    lemma_find_at(self.definitions@, idx as int, name@);
                }
                return Some(&self.definitions[idx].1);
            }
            i += 1;
        }
        proof {
            lemma_find_absent(self.definitions@, name@);
        }
        match self.parent {
            Some(parent) => parent.get_definition(ident),
            None => None,
        }
    }

    /// A new scope inside this one, with nothing defined in it yet.
    pub fn new_child(&self) -> (r: Scope<'_>)
        ensures
            r.own() == Map::<Seq<char>, DefId>::empty(),
            r.parent_scope() == Some(self),
    {
        let r = Scope { parent: Some(self), definitions: Vec::new() };
        proof {
            assert(r.own() =~= Map::<Seq<char>, DefId>::empty());
        }
        r
    }
}

/// The entry at `idx` is the latest one for `name`.
proof fn lemma_find_at(defs: Seq<(String, DefId)>, idx: int, name: Seq<char>)
    requires
        0 <= idx < defs.len(),
        defs[idx].0@ == name,
        forall|j: int| idx < j < defs.len() ==> #[trigger] defs[j].0@ != name,
    ensures
        find(defs, name) == Some(defs[idx].1),
    decreases defs.len(),
{
    if idx < defs.len() - 1 {
        let prefix = defs.drop_last();
        assert forall|j: int| idx < j < prefix.len() implies #[trigger] prefix[j].0@ != name by {
            assert(prefix[j] == defs[j]);
        }
        lemma_find_at(prefix, idx, name);
    }
}

proof fn lemma_find_absent(defs: Seq<(String, DefId)>, name: Seq<char>)
    requires
        forall|j: int| 0 <= j < defs.len() ==> #[trigger] defs[j].0@ != name,
    ensures
        find(defs, name).is_none(),
    decreases defs.len(),
{
    if defs.len() > 0 {
        let prefix = defs.drop_last();
        assert forall|j: int| 0 <= j < prefix.len() implies #[trigger] prefix[j].0@ != name by {
            assert(prefix[j] == defs[j]);
        }
        lemma_find_absent(prefix, name);
    }
}

/// A name defined in a scope is found there, whatever the enclosing scopes define.
pub proof fn lemma_define_then_resolve(before: Scope, after: Scope, name: Seq<char>, def_id: DefId)
    requires
        after.own() == before.own().insert(name, def_id),
    ensures
        after.resolve(name) == Some(def_id),
{
}

/// A new scope inside `parent` resolves every name as `parent` does until something is
/// defined in it.
pub proof fn lemma_child_resolves_as_parent(parent: &Scope, child: Scope, name: Seq<char>)
    requires
        child.own() == Map::<Seq<char>, DefId>::empty(),
        child.parent_scope() == Some(parent),
    ensures
        child.resolve(name) == parent.resolve(name),
{
}

/// Defining a name in a scope changes what no other name resolves to there, neither in this
/// scope nor through the enclosing ones; together with `lemma_define_then_resolve` this is
/// shadowing: the innermost definition of a name wins and the enclosing scopes keep theirs.
pub proof fn lemma_define_keeps_others(before: Scope, after: Scope, name: Seq<char>, def_id: DefId, other: Seq<char>)
    requires
        after.own() == before.own().insert(name, def_id),
        after.parent_scope() == before.parent_scope(),
        other != name,
    ensures
        after.resolve(other) == before.resolve(other),
{
    assert(after.own().contains_key(other) == before.own().contains_key(other));
    if before.own().contains_key(other) {
        assert(after.own()[other] == before.own()[other]);
    }
}

} // verus!
