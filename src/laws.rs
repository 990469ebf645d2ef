//! What holds of every run of interning, stated over the model of a store
//! (the contents of its cells, by slot) that `InternTable` states its
//! operations in.
use vstd::prelude::*;

use crate::table::{distinct, interned_into, slot_after_intern, slot_of};

verus! {

/// The store after interning each of `ws` in turn, starting from `s`.
pub open spec fn intern_all(s: Seq<Seq<u8>>, ws: Seq<Seq<u8>>) -> Seq<Seq<u8>>
    decreases ws.len(),
{
    if ws.len() == 0 {
        s
    } else {
        intern_all(interned_into(s, ws[0]), ws.drop_first())
    }
}

proof fn lemma_slot_unique(s: Seq<Seq<u8>>, v: Seq<u8>, i: int)
    requires
        distinct(s),
        0 <= i < s.len(),
        s[i] == v,
    ensures
        slot_of(s, v) == i,
{
    let j = slot_of(s, v);
    assert(0 <= j < s.len() && s[j] == v);
}

/// Interning keeps the store distinct, keeps every earlier cell at its
/// slot, and leaves `v` at the slot it hands out.
proof fn lemma_intern_step(s: Seq<Seq<u8>>, v: Seq<u8>)
    requires
        distinct(s),
    ensures
        distinct(interned_into(s, v)),
        s.len() <= interned_into(s, v).len(),
        forall|i: int| 0 <= i < s.len() ==> #[trigger] interned_into(s, v)[i] == s[i],
        0 <= slot_after_intern(s, v) < interned_into(s, v).len(),
        interned_into(s, v)[slot_after_intern(s, v)] == v,
        slot_of(interned_into(s, v), v) == slot_after_intern(s, v),
{
    if s.contains(v) {
        let i = choose|i: int| 0 <= i < s.len() && s[i] == v;
        lemma_slot_unique(s, v, i);
    } else {
        let t = s.push(v);
        assert forall|i: int, j: int|
            0 <= i < t.len() && 0 <= j < t.len() && #[trigger] t[i] == #[trigger] t[j] implies i == j by {
            if i < s.len() && j == s.len() {
                assert(s.contains(v)) by { assert(s[i] == v); }
            } else if j < s.len() && i == s.len() {
                assert(s.contains(v)) by { assert(s[j] == v); }
            }
        }
        lemma_slot_unique(t, v, s.len() as int);
    }
}

/// Interning more contents keeps the store distinct and every earlier cell
/// at its slot.
proof fn lemma_intern_all_keeps(s: Seq<Seq<u8>>, ws: Seq<Seq<u8>>)
    requires
        distinct(s),
    ensures
        distinct(intern_all(s, ws)),
        s.len() <= intern_all(s, ws).len(),
        forall|i: int| 0 <= i < s.len() ==> #[trigger] intern_all(s, ws)[i] == s[i],
    decreases ws.len(),
{
    if ws.len() > 0 {
        lemma_intern_step(s, ws[0]);
        lemma_intern_all_keeps(interned_into(s, ws[0]), ws.drop_first());
    }
}

/// Interning two equal values hands out the same address, the second time
/// without storing anything.
pub proof fn lemma_equal_values_share_address(s: Seq<Seq<u8>>, v1: Seq<u8>, v2: Seq<u8>)
    requires
        distinct(s),
        v1 == v2,
    ensures
        slot_after_intern(interned_into(s, v1), v2) == slot_after_intern(s, v1),
        interned_into(interned_into(s, v1), v2) == interned_into(s, v1),
{
    lemma_intern_step(s, v1);
    let t = interned_into(s, v1);
    assert(t.contains(v2)) by { assert(t[slot_after_intern(s, v1)] == v2); }
}

/// Interning two different values hands out different addresses.
pub proof fn lemma_different_values_differ_in_address(s: Seq<Seq<u8>>, v1: Seq<u8>, v2: Seq<u8>)
    requires
        distinct(s),
        v1 != v2,
    ensures
        slot_after_intern(interned_into(s, v1), v2) != slot_after_intern(s, v1),
{
    let t = interned_into(s, v1);
    lemma_intern_step(s, v1);
    lemma_intern_step(t, v2);
    let a = slot_after_intern(s, v1);
    let b = slot_after_intern(t, v2);
    assert(interned_into(t, v2)[a] == v1);
    assert(interned_into(t, v2)[b] == v2);
}

/// Once interning `v` has handed out an address, later interning of any
/// contents leaves `v` at that address: looking `v` up, or interning it
/// again, gives that address and stores nothing.
pub proof fn lemma_address_stable(s: Seq<Seq<u8>>, v: Seq<u8>, ws: Seq<Seq<u8>>)
    requires
        distinct(s),
    ensures
        intern_all(interned_into(s, v), ws).contains(v),
        slot_of(intern_all(interned_into(s, v), ws), v) == slot_after_intern(s, v),
        slot_after_intern(intern_all(interned_into(s, v), ws), v) == slot_after_intern(s, v),
        interned_into(intern_all(interned_into(s, v), ws), v) == intern_all(interned_into(s, v), ws),
{
    let t = interned_into(s, v);
    let a = slot_after_intern(s, v);
    lemma_intern_step(s, v);
    lemma_intern_all_keeps(t, ws);
    let u = intern_all(t, ws);
    assert(u[a] == v);
    assert(u.contains(v));
    lemma_slot_unique(u, v, a);
}

/// However many times equal contents are interned, one after another in any
/// number of critical sections, the store ends with exactly one cell equal
/// to them and every call hands out that cell's address.
pub proof fn lemma_one_cell_per_value(s: Seq<Seq<u8>>, v: Seq<u8>, ws: Seq<Seq<u8>>)
    requires
        distinct(s),
        ws.len() > 0,
        forall|k: int| 0 <= k < ws.len() ==> #[trigger] ws[k] == v,
    ensures
        intern_all(s, ws) == interned_into(s, v),
        intern_all(s, ws).contains(v),
        forall|i: int, j: int|
            0 <= i < intern_all(s, ws).len() && 0 <= j < intern_all(s, ws).len()
                && intern_all(s, ws)[i] == v && intern_all(s, ws)[j] == v ==> i == j,
        forall|k: int|
            0 <= k < ws.len() ==> slot_after_intern(#[trigger] intern_all(s, ws.take(k)), v)
                == slot_after_intern(s, v),
    decreases ws.len(),
{
    lemma_intern_step(s, v);
    let t = interned_into(s, v);
    let rest = ws.drop_first();
    assert(ws[0] == v);
    if rest.len() > 0 {
        lemma_one_cell_per_value(t, v, rest);
        lemma_equal_values_share_address(s, v, v);
        assert forall|k: int| 0 <= k < ws.len() implies slot_after_intern(
            #[trigger] intern_all(s, ws.take(k)),
            v,
        ) == slot_after_intern(s, v) by {
            if k == 0 {
                assert(ws.take(0) =~= Seq::<Seq<u8>>::empty());
            } else {
                assert(ws.take(k).drop_first() =~= rest.take(k - 1));
                assert(ws.take(k)[0] == v);
                assert(intern_all(s, ws.take(k)) == intern_all(t, rest.take(k - 1)));
                assert(slot_after_intern(intern_all(t, rest.take(k - 1)), v) == slot_after_intern(t, v));
            }
        }
    } else {
        assert(rest =~= Seq::<Seq<u8>>::empty());
        assert forall|k: int| 0 <= k < ws.len() implies slot_after_intern(
            #[trigger] intern_all(s, ws.take(k)),
            v,
        ) == slot_after_intern(s, v) by {
            assert(ws.take(k) =~= Seq::<Seq<u8>>::empty());
        }
    }
    assert(t.contains(v)) by { assert(t[slot_after_intern(s, v)] == v); }
}

/// Starting from an empty store, a lookup of `v` misses until `v` is
/// interned, and hits from then on.
pub proof fn lemma_miss_before_insert(ws: Seq<Seq<u8>>, v: Seq<u8>)
    requires
        forall|k: int| 0 <= k < ws.len() ==> #[trigger] ws[k] != v,
    ensures
        !intern_all(Seq::empty(), ws).contains(v),
        interned_into(intern_all(Seq::empty(), ws), v).contains(v),
    decreases ws.len(),
{
    lemma_miss_from(Seq::empty(), ws, v);
    let t = intern_all(Seq::<Seq<u8>>::empty(), ws);
    if !t.contains(v) {
        assert(t.push(v)[t.len() as int] == v);
    }
}

proof fn lemma_miss_from(s: Seq<Seq<u8>>, ws: Seq<Seq<u8>>, v: Seq<u8>)
    requires
        !s.contains(v),
        forall|k: int| 0 <= k < ws.len() ==> #[trigger] ws[k] != v,
    ensures
        !intern_all(s, ws).contains(v),
    decreases ws.len(),
{
    if ws.len() > 0 {
        let t = interned_into(s, ws[0]);
        assert(!t.contains(v)) by {
            if !s.contains(ws[0]) {
                if t.contains(v) {
                    let i = choose|i: int| 0 <= i < t.len() && t[i] == v;
                    if i < s.len() {
                        assert(s[i] == v);
                    }
                }
            }
        }
        assert forall|k: int| 0 <= k < ws.drop_first().len() implies #[trigger] ws.drop_first()[k] != v by {
            assert(ws.drop_first()[k] == ws[k + 1]);
        }
        lemma_miss_from(t, ws.drop_first(), v);
    }
}

} // verus!
