//! The hash index from canonical contents to arena slots, kept in a
//! `hashbrown::HashMap`.
use std::sync::Arc;
use vstd::prelude::*;

verus! {

#[verifier::external_type_specification]
#[verifier::external_body]
pub struct ExDefaultHashBuilder(hashbrown::DefaultHashBuilder);

/// A `hashbrown::HashMap` from canonical contents to slot numbers. The map's
/// allocator parameter names a trait that hashbrown does not export, so the
/// map is held here, opaque, and reached only through the functions below.
#[verifier::external_body]
pub struct SlotIndex {
    map: hashbrown::HashMap<Arc<[u8]>, usize>,
}

/// What the index holds: each key's contents mapped to its slot number.
pub uninterp spec fn slot_map(index: SlotIndex) -> Map<Seq<u8>, usize>;

/// Largest capacity reserved up front; far larger hints would overflow
/// hashbrown's bucket arithmetic on small targets, which panics.
pub const MAX_CAPACITY: usize = 0x000f_ffff;

impl SlotIndex {
    /// Relies on `hashbrown::HashMap::with_capacity_and_hasher`: a new map
    /// is empty.
    #[verifier::external_body]
    pub fn with_capacity_and_hasher(capacity: usize, hasher: hashbrown::DefaultHashBuilder) -> (r: SlotIndex)
        requires
            capacity <= MAX_CAPACITY,
        ensures
            slot_map(r).dom() == Set::<Seq<u8>>::empty(),
    {
        SlotIndex { map: hashbrown::HashMap::with_capacity_and_hasher(capacity, hasher) }
    }

    /// Relies on `hashbrown::HashMap::get`: a lookup by the borrowed contents
    /// finds the slot stored under an equal key, and nothing else.
    #[verifier::external_body]
    pub fn lookup(&self, key: &[u8]) -> (r: Option<usize>)
        ensures
            r == (if slot_map(*self).contains_key(key@) {
                Some(slot_map(*self)[key@])
            } else {
                None
            }),
    {
        self.map.get(key).copied()
    }

    /// Relies on `hashbrown::HashMap::insert`: afterwards the key maps to the
    /// given slot and every other key is as it was.
    #[verifier::external_body]
    pub fn insert(&mut self, key: Arc<[u8]>, slot: usize)
        ensures
            slot_map(*final(self)) == slot_map(*old(self)).insert(key@, slot),
    {
        self.map.insert(key, slot);
    }
}

} // verus!
