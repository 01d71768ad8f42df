//! A collection of effects, kept in a `SlotMap` and addressed by the keys it hands
//! out. It holds no timers: how long an effect lives is decided by whoever owns it.
//!
//! Each change marks the collection dirty; whoever reads the attribute later walks
//! the effects again only when it finds the mark set. Since walks happen only after
//! changes, inserts and removals are taken to be the common case, which is why the
//! storage is a `SlotMap`.
//!
//! Effects are held by 64-bit handles, and keys are the handles of `SlotMap` keys.
use vstd::prelude::*;
use crate::base_lib::eff_attr::slot_map_specs::{
    key_handle, slot_index, slot_map_contents, slot_map_get_mut, slot_map_insert, slot_map_iter, slot_map_len,
    slot_map_new, slot_map_remove, HandleSlotMap,
};

verus! {

/// Effects under keys, with a mark that tells whether they changed.
pub struct EffCollection {
    ll: HandleSlotMap,
    changed_flag: bool,
}

/// The values of `m`, one for each key in `keys`, in that order.
pub open spec fn values_in_order(m: Map<u64, u64>, keys: Seq<u64>) -> Seq<u64> {
    keys.map_values(|k: u64| m[k])
}

/// `keys` lists every key of `m` once, by increasing slot index.
pub open spec fn lists_keys(m: Map<u64, u64>, keys: Seq<u64>) -> bool {
    &&& keys.no_duplicates()
    &&& forall|i: int, j: int|
        0 <= i < j < keys.len() ==> slot_index(#[trigger] keys[i]) < slot_index(#[trigger] keys[j])
    &&& keys.len() == m.len()
    &&& forall|i: int| 0 <= i < keys.len() ==> m.contains_key(#[trigger] keys[i])
}

impl EffCollection {
    /// The effects, by key handle.
    pub closed spec fn contents(&self) -> Map<u64, u64> {
        slot_map_contents(self.ll)
    }

    /// Whether the collection changed since the mark was last cleared.
    pub closed spec fn changed(&self) -> bool {
        self.changed_flag
    }

    /// The collection's invariant: it holds finitely many effects.
    pub open spec fn wf(&self) -> bool {
        self.contents().dom().finite()
    }

    /// An empty, unchanged collection.
    pub fn new() -> (r: Self)
        ensures
            r.wf(),
            r.contents() == Map::<u64, u64>::empty(),
            !r.changed(),
    {
        EffCollection { ll: slot_map_new(), changed_flag: false }
    }

    /// Every effect once, by increasing slot index of its key.
    pub fn iter(&self) -> (r: Vec<u64>)
        requires
            self.wf(),
        ensures
            exists|keys: Seq<u64>|
                #![trigger values_in_order(self.contents(), keys)]
                lists_keys(self.contents(), keys) && r@ == values_in_order(self.contents(), keys),
    {
        let pairs = slot_map_iter(&self.ll);
        let ghost keys: Seq<u64> = pairs@.map_values(|p: (u64, u64)| p.0);
        let mut out: Vec<u64> = Vec::new();
        let mut i: usize = 0;
        while i < pairs.len()
            invariant
                0 <= i <= pairs@.len(),
                keys == pairs@.map_values(|p: (u64, u64)| p.0),
                out@ == values_in_order(self.contents(), keys).take(i as int),
                forall|j: int|
                    0 <= j < pairs@.len() ==> slot_map_contents(self.ll).contains_key(
                        #[trigger] pairs@[j].0,
                    ) && slot_map_contents(self.ll)[pairs@[j].0] == pairs@[j].1,
            decreases pairs@.len() - i,
        {
            out.push(pairs[i].1);
            i = i + 1;
        }
        proof {
            assert(out@ == values_in_order(self.contents(), keys));
            assert forall|a: int, b: int| 0 <= a < keys.len() && 0 <= b < keys.len() && a != b implies keys[a] != keys[b] by {
                if a < b {
                    assert(pairs@[a].0 != pairs@[b].0);
                } else {
                    assert(pairs@[b].0 != pairs@[a].0);
                }
            }
            assert forall|a: int| 0 <= a < keys.len() implies self.contents().contains_key(#[trigger] keys[a]) by {
                assert(keys[a] == pairs@[a].0);
            }
            assert forall|a: int, b: int| 0 <= a < b < keys.len() implies slot_index(#[trigger] keys[a]) < slot_index(#[trigger] keys[b]) by {
                assert(slot_index(pairs@[a].0) < slot_index(pairs@[b].0));
            }
            assert(lists_keys(self.contents(), keys));
        }
        out
    }

    /// How many entries the collection holds.
    pub fn len(&self) -> (r: usize)
        ensures
            r == self.contents().len(),
    {
        slot_map_len(&self.ll)
    }

    /// Stores `value` under a fresh key, marks the collection changed and returns
    /// the key.
    pub fn insert(&mut self, value: u64) -> (r: u64)
        requires
            old(self).wf(),
            old(self).contents().len() < 0xffff_fffe,
        ensures
            final(self).wf(),
            r == key_handle(r),
            !old(self).contents().contains_key(r),
            final(self).contents() == old(self).contents().insert(r, value),
            final(self).changed(),
    {
        self.changed_flag = true;
        slot_map_insert(&mut self.ll, value)
    }

    /// Removes the effect under `key`, if there is one, and marks the collection
    /// changed when there was.
    pub fn remove(&mut self, key: u64) -> (r: Option<u64>)
        requires
            old(self).wf(),
        ensures
            final(self).wf(),
            old(self).contents().contains_key(key_handle(key)) ==> {
                &&& r == Some(old(self).contents()[key_handle(key)])
                &&& final(self).contents() == old(self).contents().remove(key_handle(key))
                &&& final(self).changed()
            },
            !old(self).contents().contains_key(key_handle(key)) ==> {
                &&& r is None
                &&& final(self).contents() == old(self).contents()
                &&& final(self).changed() == old(self).changed()
            },
    {
        let value_opt = slot_map_remove(&mut self.ll, key);
        if value_opt.is_some() {
            self.changed_flag = true;
        }
        value_opt
    }

    /// The effect under `key`, if there is one, for update in place; the collection
    /// is marked changed when there is.
    pub fn get_mut(&mut self, key: u64) -> (r: Option<&mut u64>)
        requires
            old(self).wf(),
        ensures
            old(self).contents().contains_key(key_handle(key)) ==> {
                &&& r is Some
                &&& *r.unwrap() == old(self).contents()[key_handle(key)]
                &&& final(self).contents() == old(self).contents().insert(
                    key_handle(key),
                    *final(r.unwrap()),
                )
                &&& final(self).changed()
                &&& final(self).wf()
            },
            !old(self).contents().contains_key(key_handle(key)) ==> {
                &&& r is None
                &&& final(self).contents() == old(self).contents()
                &&& final(self).changed() == old(self).changed()
                &&& final(self).wf()
            },
    {
        let value_opt = slot_map_get_mut(&mut self.ll, key);
        if value_opt.is_some() {
            self.changed_flag = true;
        }
        value_opt
    }

    /// Clears the change mark.
    pub fn reset_flag(&mut self)
        ensures
            final(self).contents() == old(self).contents(),
            !final(self).changed(),
    {
        self.changed_flag = false;
    }
}

impl Default for EffCollection {
    fn default() -> (r: Self)
        ensures
            r.wf(),
            r.contents() == Map::<u64, u64>::empty(),
            !r.changed(),
    {
        Self::new()
    }
}

/// What is stored under a fresh key is what the key finds: after `insert` returns
/// key `k` for `v`, `get_mut(k)` and `remove(k)` find `v`, and removing it gives back
/// the contents as they were before the insert.
pub proof fn law_insert_then_find(m: Map<u64, u64>, k: u64, v: u64)
    requires
        k == key_handle(k),
        !m.contains_key(k),
    ensures
        m.insert(k, v).contains_key(key_handle(k)),
        m.insert(k, v)[key_handle(k)] == v,
        m.insert(k, v).remove(key_handle(k)) == m,
{
    assert(m.insert(k, v).remove(key_handle(k)) =~= m);
}

} // verus!
