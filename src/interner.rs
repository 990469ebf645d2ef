//! The interner: a canonical store behind a reader/writer lock, shared by
//! any number of threads.
use std::sync::RwLock;
use vstd::prelude::*;

use crate::interned::Interned;
use crate::locking::{exclusive_store, lock_exclusive, lock_shared, new_lock, shared_store};
use crate::table::{accepts, accepts_for, InternTable};

verus! {

/// An interner of byte sequences.
///
/// Lookups take the lock shared; a miss in `intern` takes it exclusively
/// and looks again before it stores anything, so that of several threads
/// interning equal contents at once exactly one stores a cell and all get
/// its handle. Cells are never removed or moved, and each handle is tied to
/// the borrow of the interner that made it.
pub struct Interner {
    store: RwLock<InternTable>,
}

impl Interner {
    /// An empty interner; it allocates nothing until the first insertion.
    pub fn new() -> (r: Interner) {
        Interner { store: new_lock(InternTable::new()) }
    }

    /// An empty interner with room for about `capacity` cells.
    pub fn with_capacity(capacity: usize) -> (r: Interner) {
        Interner { store: new_lock(InternTable::with_capacity(capacity)) }
    }

    /// An empty interner that hashes with `hasher`.
    pub fn with_hasher(hasher: hashbrown::DefaultHashBuilder) -> (r: Interner) {
        Interner { store: new_lock(InternTable::with_capacity_and_hasher(0, hasher)) }
    }

    /// An empty interner with room for about `capacity` cells that hashes
    /// with `hasher`.
    pub fn with_capacity_and_hasher(capacity: usize, hasher: hashbrown::DefaultHashBuilder) -> (r: Interner) {
        Interner { store: new_lock(InternTable::with_capacity_and_hasher(capacity, hasher)) }
    }

    /// The handle of the cell equal to `v`, if one has been interned. This
    /// never allocates a cell.
    pub fn get(&self, v: &[u8]) -> (r: Option<Interned<'_>>)
        ensures
            r matches Some(h) ==> h.bytes() == v@,
    {
        let guard = lock_shared(&self.store);
        let found = shared_store(&guard).get(v);
        found
    }

    /// The handle of the canonical cell equal to `v`. A copy of `v` is
    /// stored in a new cell only when no equal cell exists yet.
    pub fn intern(&self, v: &[u8]) -> (r: Interned<'_>)
        ensures
            r.bytes() == v@,
    {
        if let Some(h) = self.get(v) {
            return h;
        }
        let mut guard = lock_exclusive(&self.store);
        let h = exclusive_store(&mut guard).intern(v);
        h
    }

    /// The handle of the first cell, in slot order, that `is_match` accepts.
    pub fn get_raw<F: Fn(&[u8]) -> bool>(&self, is_match: &F) -> (r: Option<Interned<'_>>)
        requires
            forall|b: &[u8]| #[trigger] is_match.requires((b,)),
        ensures
            r matches Some(h) ==> accepts(*is_match, h.bytes()),
    {
        let guard = lock_shared(&self.store);
        let found = shared_store(&guard).get_raw(is_match);
        found
    }

    /// The handle of a cell that `is_match` accepts for `probe`. When there
    /// is none, `commit` turns `probe` into contents, which are then
    /// interned; `commit` is called only then, under the exclusive lock.
    pub fn intern_raw<Q, F: Fn(&Q, &[u8]) -> bool, C: FnOnce(Q) -> Vec<u8>>(
        &self,
        probe: Q,
        is_match: &F,
        commit: C,
    ) -> (r: Interned<'_>)
        requires
            forall|q: &Q, b: &[u8]| #[trigger] is_match.requires((q, b)),
            commit.requires((probe,)),
        ensures
            accepts_for(*is_match, &probe, r.bytes()) || exists|c: Vec<u8>|
                #[trigger] commit.ensures((probe,), c) && r.bytes() == c@,
    {
        let for_probe = |b: &[u8]| -> (hit: bool)
            ensures
                is_match.ensures((&probe, b), hit),
            { is_match(&probe, b) };
        if let Some(h) = self.get_raw(&for_probe) {
            return h;
        }
        let mut guard = lock_exclusive(&self.store);
        let h = exclusive_store(&mut guard).intern_raw(probe, is_match, commit);
        h
    }
}

impl Default for Interner {
    /// An empty interner, as `Interner::new` makes it.
    fn default() -> (r: Interner) {
        Interner::new()
    }
}

} // verus!
