//! Handles to canonical cells.
use std::marker::PhantomData;
use std::sync::Arc;
use vstd::prelude::*;

verus! {

/// Relies on `Arc::clone`: the new pointer shares the allocation, so it
/// reads the same contents.
#[verifier::external_body]
pub(crate) fn share(cell: &Arc<[u8]>) -> (r: Arc<[u8]>)
    ensures
        r@ == cell@,
{
    Arc::clone(cell)
}

/// Relies on `Arc::ptr_eq`: true only when both pointers share one
/// allocation, which then holds one set of contents.
#[verifier::external_body]
fn same_allocation(a: &Arc<[u8]>, b: &Arc<[u8]>) -> (r: bool)
    ensures
        r ==> a@ == b@,
{
    Arc::ptr_eq(a, b)
}

/// Relies on `Hash` of `usize`: feeds the slot number to `state`.
#[verifier::external_body]
fn hash_slot<H: std::hash::Hasher>(slot: usize, state: &mut H) {
    std::hash::Hash::hash(&slot, state)
}

/// A handle to a canonical cell of an interner.
///
/// The handle records the cell's slot in its interner, which is the cell's
/// address there: two handles from one interner are equal exactly when their
/// slots are, and never need to compare contents. `==` compares the cells'
/// allocations, so handles of different interners are never equal, even
/// where their contents are. A handle is tied by `'a` to the borrow of the
/// interner that made it.
pub struct Interned<'a> {
    slot: usize,
    cell: Arc<[u8]>,
    owner: PhantomData<&'a ()>,
}

impl<'a> Interned<'a> {
    /// The slot of the canonical cell, its address in the interner.
    pub closed spec fn addr(self) -> usize {
        self.slot
    }

    /// The contents of the canonical cell.
    pub closed spec fn bytes(self) -> Seq<u8> {
        self.cell@
    }

    pub(crate) fn new(slot: usize, cell: Arc<[u8]>) -> (r: Interned<'a>)
        ensures
            r.addr() == slot,
            r.bytes() == cell@,
    {
        Interned { slot, cell, owner: PhantomData }
    }

    /// The contents of the canonical cell.
    ///
    /// This is an associated function rather than a method so that it does
    /// not shadow a method of the contents.
    pub fn get(this: &Self) -> (r: &[u8])
        ensures
            r@ == this.bytes(),
    {
        &*this.cell
    }

    /// The slot of the canonical cell.
    pub fn address(this: &Self) -> (r: usize)
        ensures
            r == this.addr(),
    {
        this.slot
    }

    /// Whether two handles name the same cell.
    pub fn same(this: &Self, other: &Self) -> (r: bool)
        ensures
            r == (this.addr() == other.addr()),
    {
        this.slot == other.slot
    }
}

impl<'a> PartialEq for Interned<'a> {
    /// Whether both handles name one allocation: never by contents alone.
    fn eq(&self, other: &Self) -> (r: bool)
        ensures
            r ==> self.bytes() == other.bytes(),
    {
        same_allocation(&self.cell, &other.cell)
    }
}

/// `==` compares allocations, which the model of a handle does not hold, so
/// it is not claimed to follow `eq_spec`; `eq` itself states what equal
/// handles share.
impl<'a> vstd::std_specs::cmp::PartialEqSpecImpl for Interned<'a> {
    open spec fn obeys_eq_spec() -> bool {
        false
    }

    open spec fn eq_spec(&self, other: &Self) -> bool {
        self.bytes() == other.bytes()
    }
}

impl<'a> Eq for Interned<'a> {
}

impl<'a> std::hash::Hash for Interned<'a> {
    /// Hashes the slot alone: handles that are `==` share one allocation,
    /// hence one slot.
    fn hash<H: std::hash::Hasher>(&self, state: &mut H) {
        hash_slot(self.slot, state);
    }
}

impl<'a> Clone for Interned<'a> {
    fn clone(&self) -> (r: Self)
        ensures
            r.addr() == self.addr(),
            r.bytes() == self.bytes(),
    {
        Interned { slot: self.slot, cell: share(&self.cell), owner: PhantomData }
    }
}

} // verus!
