//! The declaration store: an append-only collection of fully compiled,
//! frozen packages. Packages are inserted at interpreter construction and
//! read-only thereafter.

use vstd::prelude::*;
use crate::ast::{ItemKind, PackageId};
use crate::index_map::IndexMap;

verus! {

/// One compiled package: its items, addressed by local declaration id.
pub struct CompileUnit {
    pub items: IndexMap<ItemKind>,
}

impl CompileUnit {
    /// The package's items as a map.
    pub open spec fn view(&self) -> Map<int, ItemKind> {
        self.items.as_map()
    }

    /// A package with no items.
    pub fn empty() -> (r: CompileUnit)
        ensures
            r@ == Map::<int, ItemKind>::empty(),
    {
        CompileUnit { items: IndexMap::new() }
    }
}

/// The append-only store of frozen packages; a package's handle is its
/// insertion index, assigned once and never reused or mutated afterward.
pub struct PackageStore {
    packages: Vec<CompileUnit>,
}

impl PackageStore {
    /// The store's content, in insertion order.
    pub closed spec fn view(&self) -> Seq<Map<int, ItemKind>> {
        Seq::new(self.packages@.len(), |i: int| self.packages@[i]@)
    }

    /// An empty store.
    pub fn new() -> (r: PackageStore)
        ensures
            r@ =~= Seq::<Map<int, ItemKind>>::empty(),
    {
        PackageStore { packages: Vec::new() }
    }

    /// Appends one package and hands out its stable handle.
    pub fn insert(&mut self, unit: CompileUnit) -> (id: PackageId)
        requires
            old(self)@.len() < usize::MAX,
        ensures
            id == old(self)@.len(),
            final(self)@ =~= old(self)@.push(unit@),
    {
        let id = self.packages.len();
        self.packages.push(unit);
        id
    }

    /// Read-only package lookup by handle.
    pub fn get(&self, id: PackageId) -> (r: Option<&CompileUnit>)
        ensures
            match r {
                Some(unit) => id < self@.len() && unit@ == self@[id as int],
                None => id >= self@.len(),
            },
    {
        if id < self.packages.len() {
            Some(&self.packages[id])
        } else {
            None
        }
    }
}

} // verus!
