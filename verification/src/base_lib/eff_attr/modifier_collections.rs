//! A collection of attribute modifiers, kept in a `SlotMap`, whose changes wait in a
//! queue until they are committed together.
//!
//! Inserting takes a key at once, holding a modifier that changes nothing, and
//! queues the real modifier for that key; removals and replacements are queued too.
//! `commit_pending` applies the queue in order and marks the collection dirty.
//!
//! Modifiers are held by 64-bit handles, and keys are the handles of `SlotMap` keys.
use vstd::prelude::*;
use crate::base_lib::eff_attr::slot_map_specs::{
    key_handle, slot_index, slot_map_contents, slot_map_get_mut, slot_map_insert, slot_map_iter, slot_map_len,
    slot_map_new, slot_map_remove, HandleSlotMap,
};
use crate::base_lib::eff_attr::eff_collections::{lists_keys, values_in_order};

verus! {

/// The handle of a modifier that changes nothing: what a key holds between its
/// insertion and the commit that gives it its modifier.
pub const INVALID_MODIFIER: u64 = 0xffff_ffff_ffff_ffffu64;

/// A change waiting for the next commit.
#[derive(Clone, Copy, Debug, PartialEq, Eq, Structural)]
pub enum ModifierOp {
    /// Remove the modifier under the key.
    Remove(u64),
    /// Put the modifier in place of the one under the key, if the key is still live.
    Replace(u64, u64),
}

/// What one change does to the modifiers.
pub open spec fn apply_op(m: Map<u64, u64>, op: ModifierOp) -> Map<u64, u64> {
    match op {
        ModifierOp::Remove(k) => m.remove(key_handle(k)),
        ModifierOp::Replace(k, v) => if m.contains_key(key_handle(k)) {
            m.insert(key_handle(k), v)
        } else {
            m
        },
    }
}

/// What a queue of changes does to the modifiers, applied first to last.
pub open spec fn apply_ops(m: Map<u64, u64>, ops: Seq<ModifierOp>) -> Map<u64, u64>
    decreases ops.len(),
{
    if ops.len() == 0 {
        m
    } else {
        apply_op(apply_ops(m, ops.drop_last()), ops.last())
    }
}

/// Modifiers under keys, the changes waiting for them, and a dirty mark.
pub struct ModifierCollection {
    ll: HandleSlotMap,
    pending_list: Vec<ModifierOp>,
    changed_flag: bool,
}

impl ModifierCollection {
    /// The modifiers in effect, by key handle.
    pub closed spec fn contents(&self) -> Map<u64, u64> {
        slot_map_contents(self.ll)
    }

    /// The changes waiting for the next commit, oldest first.
    pub closed spec fn pending(&self) -> Seq<ModifierOp> {
        self.pending_list@
    }

    /// Whether the modifiers changed since the mark was last cleared.
    pub closed spec fn dirty(&self) -> bool {
        self.changed_flag
    }

    /// The collection's invariant: it holds finitely many modifiers.
    pub open spec fn wf(&self) -> bool {
        self.contents().dom().finite()
    }

    /// An empty collection with nothing waiting and no dirty mark.
    pub fn new() -> (r: Self)
        ensures
            r.wf(),
            r.contents() == Map::<u64, u64>::empty(),
            r.pending() == Seq::<ModifierOp>::empty(),
            !r.dirty(),
    {
        ModifierCollection { ll: slot_map_new(), pending_list: Vec::new(), changed_flag: false }
    }

    /// Every modifier in effect once, by increasing slot index of its key.
    pub fn iter(&self) -> (r: Vec<u64>)
        requires
            self.wf(),
        ensures
            exists|keys: Seq<u64>|
                #![trigger values_in_order(self.contents(), keys)]
                lists_keys(self.contents(), keys) && r@ == values_in_order(self.contents(), keys),
    {
        let pairs = slot_map_iter(&self.ll);
        let ghost keys: Seq<u64> = pairs@.map_values(|p: (u64, u64)| p.0);
        let mut out: Vec<u64> = Vec::new();
        let mut i: usize = 0;
        while i < pairs.len()
            invariant
                0 <= i <= pairs@.len(),
                keys == pairs@.map_values(|p: (u64, u64)| p.0),
                out@ == values_in_order(self.contents(), keys).take(i as int),
                forall|j: int|
                    0 <= j < pairs@.len() ==> slot_map_contents(self.ll).contains_key(
                        #[trigger] pairs@[j].0,
                    ) && slot_map_contents(self.ll)[pairs@[j].0] == pairs@[j].1,
            decreases pairs@.len() - i,
        {
            out.push(pairs[i].1);
            i = i + 1;
        }
        proof {
            assert(out@ == values_in_order(self.contents(), keys));
            assert forall|a: int, b: int| 0 <= a < keys.len() && 0 <= b < keys.len() && a != b implies keys[a] != keys[b] by {
                if a < b {
                    assert(pairs@[a].0 != pairs@[b].0);
                } else {
                    assert(pairs@[b].0 != pairs@[a].0);
                }
            }
            assert forall|a: int| 0 <= a < keys.len() implies self.contents().contains_key(#[trigger] keys[a]) by {
                assert(keys[a] == pairs@[a].0);
            }
            assert forall|a: int, b: int| 0 <= a < b < keys.len() implies slot_index(#[trigger] keys[a]) < slot_index(#[trigger] keys[b]) by {
                assert(slot_index(pairs@[a].0) < slot_index(pairs@[b].0));
            }
        }
        out
    }

    /// How many entries the collection holds.
    pub fn len(&self) -> (r: usize)
        ensures
            r == self.contents().len(),
    {
        slot_map_len(&self.ll)
    }

    /// Takes a fresh key holding `INVALID_MODIFIER` at once, queues `value` for it,
    /// and returns the key.
    pub fn insert(&mut self, value: u64) -> (r: u64)
        requires
            old(self).wf(),
            old(self).contents().len() < 0xffff_fffe,
        ensures
            final(self).wf(),
            r == key_handle(r),
            !old(self).contents().contains_key(r),
            final(self).contents() == old(self).contents().insert(r, INVALID_MODIFIER),
            final(self).pending() == old(self).pending().push(ModifierOp::Replace(r, value)),
            final(self).dirty() == old(self).dirty(),
    {
        let default_key = slot_map_insert(&mut self.ll, INVALID_MODIFIER);
        self.pending_list.push(ModifierOp::Replace(default_key, value));
        default_key
    }

    /// Queues the removal of the modifier under `key`.
    pub fn remove(&mut self, key: u64)
        ensures
            final(self).contents() == old(self).contents(),
            final(self).pending() == old(self).pending().push(ModifierOp::Remove(key)),
            final(self).dirty() == old(self).dirty(),
    {
        self.pending_list.push(ModifierOp::Remove(key));
    }

    /// Queues `value` to take the place of the modifier under `key`.
    pub fn replace(&mut self, key: u64, value: u64)
        ensures
            final(self).contents() == old(self).contents(),
            final(self).pending() == old(self).pending().push(ModifierOp::Replace(key, value)),
            final(self).dirty() == old(self).dirty(),
    {
        self.pending_list.push(ModifierOp::Replace(key, value));
    }

    /// Applies the queued changes in order and empties the queue; the collection is
    /// marked dirty when there was anything to apply.
    pub fn commit_pending(&mut self)
        requires
            old(self).wf(),
        ensures
            final(self).wf(),
            old(self).pending().len() == 0 ==> *final(self) == *old(self),
            old(self).pending().len() > 0 ==> {
                &&& final(self).contents() == apply_ops(old(self).contents(), old(self).pending())
                &&& final(self).pending() == Seq::<ModifierOp>::empty()
                &&& final(self).dirty()
            },
    {
        if self.pending_list.len() == 0 {
            return;
        }
        let ghost start = slot_map_contents(self.ll);
        let ghost ops = self.pending_list@;
        let mut i: usize = 0;
        while i < self.pending_list.len()
            invariant
                0 <= i <= ops.len(),
                self.pending_list@ == ops,
                slot_map_contents(self.ll).dom().finite(),
                slot_map_contents(self.ll) == apply_ops(start, ops.take(i as int)),
            decreases ops.len() - i,
        {
            let op = self.pending_list[i];
            proof {
                assert(ops.take(i + 1).drop_last() == ops.take(i as int));
            }
            match op {
                ModifierOp::Remove(key) => {
                    slot_map_remove(&mut self.ll, key);
                },
                ModifierOp::Replace(key, value) => {
                    match slot_map_get_mut(&mut self.ll, key) {
                        Some(value_origin) => {
                            *value_origin = value;
                        },
                        None => {},
                    }
                },
            }
            i = i + 1;
        }
        proof {
            assert(ops.take(ops.len() as int) == ops);
        }
        self.pending_list = Vec::new();
        self.changed_flag = true;
    }

    /// Whether the modifiers changed since the mark was last cleared.
    pub fn is_dirty(&self) -> (r: bool)
        ensures
            r == self.dirty(),
    {
        self.changed_flag
    }

    /// Clears the dirty mark.
    pub fn reset_flag(&mut self)
        ensures
            final(self).contents() == old(self).contents(),
            final(self).pending() == old(self).pending(),
            !final(self).dirty(),
    {
        self.changed_flag = false;
    }
}

impl Default for ModifierCollection {
    fn default() -> (r: Self)
        ensures
            r.wf(),
            r.contents() == Map::<u64, u64>::empty(),
            r.pending() == Seq::<ModifierOp>::empty(),
            !r.dirty(),
    {
        Self::new()
    }
}

/// After a commit, the last queued change on a key decides it: a queue that ends in
/// the removal of a key leaves that key without a modifier.
pub proof fn law_commit_last_remove_wins(m: Map<u64, u64>, ops: Seq<ModifierOp>, key: u64)
    ensures
        !apply_ops(m, ops.push(ModifierOp::Remove(key))).contains_key(key_handle(key)),
{
    assert(ops.push(ModifierOp::Remove(key)).drop_last() == ops);
}

/// After a commit, a queue that ends in a replacement for a key that is live at
/// that point leaves that key holding the replacement.
pub proof fn law_commit_last_replace_wins(
    m: Map<u64, u64>,
    ops: Seq<ModifierOp>,
    key: u64,
    value: u64,
)
    requires
        apply_ops(m, ops).contains_key(key_handle(key)),
    ensures
        apply_ops(m, ops.push(ModifierOp::Replace(key, value)))[key_handle(key)] == value,
{
    assert(ops.push(ModifierOp::Replace(key, value)).drop_last() == ops);
}

/// Changes to other keys leave a key alone: applying a queue that never names
/// `key` keeps what it holds.
pub proof fn law_commit_leaves_other_keys(m: Map<u64, u64>, ops: Seq<ModifierOp>, key: u64)
    requires
        forall|i: int|
            0 <= i < ops.len() ==> match #[trigger] ops[i] {
                ModifierOp::Remove(k) => key_handle(k) != key_handle(key),
                ModifierOp::Replace(k, _) => key_handle(k) != key_handle(key),
            },
    ensures
        apply_ops(m, ops).contains_key(key_handle(key)) == m.contains_key(key_handle(key)),
        m.contains_key(key_handle(key)) ==> apply_ops(m, ops)[key_handle(key)] == m[key_handle(key)],
    decreases ops.len(),
{
    if ops.len() > 0 {
        let init = ops.drop_last();
        assert forall|i: int| 0 <= i < init.len() implies match #[trigger] init[i] {
            ModifierOp::Remove(k) => key_handle(k) != key_handle(key),
            ModifierOp::Replace(k, _) => key_handle(k) != key_handle(key),
        } by {
            assert(init[i] == ops[i]);
        }
        law_commit_leaves_other_keys(m, init, key);
        let last = ops.last();
        assert(ops[ops.len() - 1] == last);
    }
}

} // verus!
