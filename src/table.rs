//! The canonical store: an arena of shared cells that only grows, and a hash
//! index from contents to slot. The slot of a cell is its address; it never
//! changes once the cell is stored.
use std::sync::Arc;
use vstd::prelude::*;

use crate::interned::{share, Interned};
use crate::slots::{slot_map, SlotIndex, MAX_CAPACITY};

verus! {

/// No two entries of `s` are equal.
pub open spec fn distinct(s: Seq<Seq<u8>>) -> bool {
    forall|i: int, j: int|
        0 <= i < s.len() && 0 <= j < s.len() && #[trigger] s[i] == #[trigger] s[j] ==> i == j
}

/// The slot of `v` in `s`; meaningful when `s` contains `v`.
pub open spec fn slot_of(s: Seq<Seq<u8>>, v: Seq<u8>) -> int {
    choose|i: int| 0 <= i < s.len() && s[i] == v
}

/// The store after interning `v`: unchanged when `v` is there, else `v` is
/// appended.
pub open spec fn interned_into(s: Seq<Seq<u8>>, v: Seq<u8>) -> Seq<Seq<u8>> {
    if s.contains(v) {
        s
    } else {
        s.push(v)
    }
}

/// The slot that interning `v` into `s` hands out.
pub open spec fn slot_after_intern(s: Seq<Seq<u8>>, v: Seq<u8>) -> int {
    if s.contains(v) {
        slot_of(s, v)
    } else {
        s.len() as int
    }
}

/// `f` accepted a slice holding `v`.
pub open spec fn accepts<F: Fn(&[u8]) -> bool>(f: F, v: Seq<u8>) -> bool {
    exists|b: &[u8]| b@ == v && #[trigger] f.ensures((b,), true)
}

/// `f` rejected a slice holding `v`.
pub open spec fn rejects<F: Fn(&[u8]) -> bool>(f: F, v: Seq<u8>) -> bool {
    exists|b: &[u8]| b@ == v && #[trigger] f.ensures((b,), false)
}

/// `f` accepted a slice holding `v` for the probe `q`.
pub open spec fn accepts_for<Q, F: Fn(&Q, &[u8]) -> bool>(f: F, q: &Q, v: Seq<u8>) -> bool {
    exists|b: &[u8]| b@ == v && #[trigger] f.ensures((q, b), true)
}

/// `f` rejected a slice holding `v` for the probe `q`.
pub open spec fn rejects_for<Q, F: Fn(&Q, &[u8]) -> bool>(f: F, q: &Q, v: Seq<u8>) -> bool {
    exists|b: &[u8]| b@ == v && #[trigger] f.ensures((q, b), false)
}

/// Relies on `From<&[u8]> for Arc<[u8]>`: a new allocation holding a copy of
/// the bytes.
#[verifier::external_body]
fn new_cell(v: &[u8]) -> (r: Arc<[u8]>)
    ensures
        r@ == v@,
{
    Arc::from(v)
}

/// Relies on `Default` of `hashbrown::DefaultHashBuilder`: hashbrown's own
/// hasher.
#[verifier::external_body]
pub(crate) fn default_hasher() -> (r: hashbrown::DefaultHashBuilder) {
    hashbrown::DefaultHashBuilder::default()
}

/// The canonical store of an interner, for use by one owner at a time.
pub struct InternTable {
    cells: Vec<Arc<[u8]>>,
    index: SlotIndex,
}

impl View for InternTable {
    type V = Seq<Seq<u8>>;

    /// The contents of the cells, by slot.
    closed spec fn view(&self) -> Seq<Seq<u8>> {
        self.cells@.map_values(|c: Arc<[u8]>| c@)
    }
}

impl InternTable {
    /// Each cell is indexed under its contents at its own slot, and the index
    /// holds nothing else.
    #[verifier::type_invariant]
    spec fn indexed(self) -> bool {
        &&& forall|i: int|
            0 <= i < self.cells@.len() ==> {
                &&& slot_map(self.index).contains_key(#[trigger] self.cells@[i]@)
                &&& slot_map(self.index)[self.cells@[i]@] == i
            }
        &&& forall|k: Seq<u8>| #[trigger]
            slot_map(self.index).contains_key(k) ==> {
                &&& (slot_map(self.index)[k] as int) < self.cells@.len()
                &&& self.cells@[slot_map(self.index)[k] as int]@ == k
            }
    }

    /// An empty store with room for about `capacity` cells, hashing with
    /// `hasher`. Room is reserved for at most `MAX_CAPACITY` cells up front;
    /// the store grows past that as it fills.
    pub fn with_capacity_and_hasher(capacity: usize, hasher: hashbrown::DefaultHashBuilder) -> (r: InternTable)
        ensures
            r@ == Seq::<Seq<u8>>::empty(),
    {
        let reserve: usize = if capacity <= MAX_CAPACITY {
            capacity
        } else {
            MAX_CAPACITY
        };
        let r = InternTable { cells: Vec::with_capacity(reserve), index: SlotIndex::with_capacity_and_hasher(reserve, hasher) };
        assert(r@ =~= Seq::<Seq<u8>>::empty());
        r
    }

    /// An empty store with room for about `capacity` cells.
    pub fn with_capacity(capacity: usize) -> (r: InternTable)
        ensures
            r@ == Seq::<Seq<u8>>::empty(),
    {
        InternTable::with_capacity_and_hasher(capacity, default_hasher())
    }

    /// An empty store; it allocates nothing until the first cell is stored.
    pub fn new() -> (r: InternTable)
        ensures
            r@ == Seq::<Seq<u8>>::empty(),
    {
        InternTable::with_capacity(0)
    }

    /// The number of cells stored.
    pub fn len(&self) -> (r: usize)
        ensures
            r == self@.len(),
    {
        self.cells.len()
    }

    proof fn lemma_indexed_distinct(&self)
        requires
            self.indexed(),
        ensures
            distinct(self@),
            self@.len() == self.cells@.len(),
            forall|k: Seq<u8>| #[trigger] self@.contains(k) <==> slot_map(self.index).contains_key(k),
            forall|k: Seq<u8>| #[trigger] self@.contains(k) ==> slot_of(self@, k) == slot_map(self.index)[k] as int,
    {
        assert forall|k: Seq<u8>| #[trigger] self@.contains(k) implies slot_map(self.index).contains_key(k)
            && slot_of(self@, k) == slot_map(self.index)[k] as int by {
            let i = choose|i: int| 0 <= i < self@.len() && self@[i] == k;
            assert(self.cells@[i]@ == k);
            let j = slot_of(self@, k);
            assert(self.cells@[j]@ == k);
        }
        assert forall|k: Seq<u8>| #[trigger] slot_map(self.index).contains_key(k) implies self@.contains(k) by {
            let i = slot_map(self.index)[k] as int;
            assert(self@[i] == k);
        }
    }

    /// The handle of the cell equal to `v`, if the store holds one.
    pub fn get<'a>(&self, v: &[u8]) -> (r: Option<Interned<'a>>)
        ensures
            distinct(self@),
            r is Some <==> self@.contains(v@),
            r matches Some(h) ==> h.addr() == slot_of(self@, v@) && h.bytes() == v@,
    {
        proof {
            use_type_invariant(self);
            self.lemma_indexed_distinct();
        }
        match self.index.lookup(v) {
            Some(slot) => Some(Interned::new(slot, share(&self.cells[slot]))),
            None => None,
        }
    }

    /// The handle of the first cell, in slot order, that `is_match` accepts.
    pub fn get_raw<'a, F: Fn(&[u8]) -> bool>(&self, is_match: &F) -> (r: Option<Interned<'a>>)
        requires
            forall|b: &[u8]| #[trigger] is_match.requires((b,)),
        ensures
            distinct(self@),
            match r {
                Some(h) => {
                    &&& 0 <= h.addr() < self@.len()
                    &&& h.bytes() == self@[h.addr() as int]
                    &&& accepts(*is_match, self@[h.addr() as int])
                    &&& forall|i: int| 0 <= i < h.addr() ==> rejects(*is_match, #[trigger] self@[i])
                },
                None => forall|i: int| 0 <= i < self@.len() ==> rejects(*is_match, #[trigger] self@[i]),
            },
    {
        proof {
            use_type_invariant(self);
            self.lemma_indexed_distinct();
        }
        let mut slot: usize = 0;
        while slot < self.cells.len()
            invariant
                slot <= self.cells@.len(),
                self@.len() == self.cells@.len(),
                distinct(self@),
                forall|b: &[u8]| #[trigger] is_match.requires((b,)),
                forall|i: int| 0 <= i < slot ==> rejects(*is_match, #[trigger] self@[i]),
            decreases self.cells@.len() - slot,
        {
            let cell: &[u8] = &*self.cells[slot];
            let hit = is_match(cell);
            proof {
                assert(cell@ == self@[slot as int]);
            }
            if hit {
                return Some(Interned::new(slot, share(&self.cells[slot])));
            }
            slot = slot + 1;
        }
        None
    }

    /// The handle of the first cell, in slot order, that `is_match` accepts
    /// for `probe`. When there is none, `commit` turns `probe` into contents,
    /// which are then interned; `commit` is called only then.
    pub fn intern_raw<'a, Q, F: Fn(&Q, &[u8]) -> bool, C: FnOnce(Q) -> Vec<u8>>(
        &mut self,
        probe: Q,
        is_match: &F,
        commit: C,
    ) -> (r: Interned<'a>)
        requires
            forall|q: &Q, b: &[u8]| #[trigger] is_match.requires((q, b)),
            commit.requires((probe,)),
        ensures
            distinct(final(self)@),
            ({
                &&& final(self)@ == old(self)@
                &&& 0 <= r.addr() < old(self)@.len()
                &&& r.bytes() == old(self)@[r.addr() as int]
                &&& accepts_for(*is_match, &probe, old(self)@[r.addr() as int])
                &&& forall|i: int| 0 <= i < r.addr() ==> rejects_for(*is_match, &probe, #[trigger] old(self)@[i])
            }) || ({
                &&& forall|i: int| 0 <= i < old(self)@.len() ==> rejects_for(*is_match, &probe, #[trigger] old(self)@[i])
                &&& exists|c: Vec<u8>| {
                    &&& #[trigger] commit.ensures((probe,), c)
                    &&& final(self)@ == interned_into(old(self)@, c@)
                    &&& r.addr() == slot_after_intern(old(self)@, c@)
                    &&& r.bytes() == c@
                }
            }),
    {
        proof {
            use_type_invariant(&*self);
            self.lemma_indexed_distinct();
        }
        let mut slot: usize = 0;
        while slot < self.cells.len()
            invariant
                slot <= self.cells@.len(),
                self@.len() == self.cells@.len(),
                distinct(self@),
                forall|q: &Q, b: &[u8]| #[trigger] is_match.requires((q, b)),
                forall|i: int| 0 <= i < slot ==> rejects_for(*is_match, &probe, #[trigger] self@[i]),
            decreases self.cells@.len() - slot,
        {
            let cell: &[u8] = &*self.cells[slot];
            let hit = is_match(&probe, cell);
            proof {
                assert(cell@ == self@[slot as int]);
            }
            if hit {
                return Interned::new(slot, share(&self.cells[slot]));
            }
            slot = slot + 1;
        }
        let contents = commit(probe);
        self.intern(contents.as_slice())
    }

    /// The handle of the cell equal to `v`, storing a copy of `v` in a new
    /// cell at the next slot when there is none.
    pub fn intern<'a>(&mut self, v: &[u8]) -> (r: Interned<'a>)
        ensures
            final(self)@ == interned_into(old(self)@, v@),
            distinct(final(self)@),
            r.addr() == slot_after_intern(old(self)@, v@),
            r.bytes() == v@,
    {
        proof {
            use_type_invariant(&*self);
            self.lemma_indexed_distinct();
        }
        match self.index.lookup(v) {
            Some(slot) => {
                proof {
                    use_type_invariant(&*self);
                }
                Interned::new(slot, share(&self.cells[slot]))
            },
            None => {
                let cell = new_cell(v);
                let mut taken = InternTable::new();
                std::mem::swap(self, &mut taken);
                proof {
                    use_type_invariant(&taken);
                }
                let InternTable { mut cells, mut index } = taken;
                let slot = cells.len();
                index.insert(share(&cell), slot);
                cells.push(share(&cell));
                let grown = InternTable { cells, index };
                proof {
                    assert(grown@ =~= old(self)@.push(v@));
                    grown.lemma_indexed_distinct();
                }
                *self = grown;
                Interned::new(slot, cell)
            },
        }
    }
}

impl Default for InternTable {
    fn default() -> (r: InternTable)
        ensures
            r@ == Seq::<Seq<u8>>::empty(),
    {
        InternTable::new()
    }
}

} // verus!
