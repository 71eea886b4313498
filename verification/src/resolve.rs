//! The symbol resolver: maps a global reference to its callable declaration,
//! whether it lives in a frozen package of the store or in the session's own
//! callable table. Resolution is a pure read and never mutates.

use vstd::prelude::*;
use crate::ast::{CallableDecl, GlobalId, ItemKind};
use crate::index_map::IndexMap;
use crate::store::PackageStore;

verus! {

/// What resolving `id` yields: the callable owned by the session's callable
/// table when the reference names the session package, else the callable
/// item of the frozen package. Absence and presence under a non-callable
/// kind are reported uniformly as `None`.
pub open spec fn resolve_v(
    store: Seq<Map<int, ItemKind>>,
    callables: Map<int, CallableDecl>,
    package: int,
    id: GlobalId,
) -> Option<CallableDecl> {
    if id.package == package {
        if callables.dom().contains(id.item as int) {
            Some(callables[id.item as int])
        } else {
            None
        }
    } else if id.package < store.len() && store[id.package as int].dom().contains(id.item as int) {
        match store[id.package as int][id.item as int] {
            ItemKind::Callable(decl) => Some(decl),
            ItemKind::Other => None,
        }
    } else {
        None
    }
}

/// Resolves a global reference against the frozen store and the session's
/// callable table; `package` is the reserved session package handle.
pub fn get_callable<'a>(
    store: &'a PackageStore,
    callables: &'a IndexMap<CallableDecl>,
    package: usize,
    id: GlobalId,
) -> (r: Option<&'a CallableDecl>)
    ensures
        match r {
            Some(decl) => resolve_v(store@, callables.as_map(), package as int, id) == Some(*decl),
            None => resolve_v(store@, callables.as_map(), package as int, id) is None,
        },
{
    if id.package == package {
        callables.get(id.item)
    } else {
        match store.get(id.package) {
            Some(unit) => match unit.items.get(id.item) {
                Some(item) => match item {
                    ItemKind::Callable(decl) => Some(decl),
                    ItemKind::Other => None,
                },
                None => None,
            },
            None => None,
        }
    }
}

/// Resolving a reference into the frozen store is unaffected by whatever the
/// session has declared: for any reference outside the session package, the
/// result is identical under any two callable tables.
pub proof fn lemma_frozen_resolution_stable(
    store: Seq<Map<int, ItemKind>>,
    callables1: Map<int, CallableDecl>,
    callables2: Map<int, CallableDecl>,
    package: int,
    id: GlobalId,
)
    requires
        id.package != package,
    ensures
        resolve_v(store, callables1, package, id) == resolve_v(store, callables2, package, id),
{
}

} // verus!
