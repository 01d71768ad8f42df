//! Per-frame systems over attribute modifiers.
//!
//! Stat and bound attributes are the sources of the formulas; they are refreshed
//! first, lazily: only when their modifiers changed since the last read.
use vstd::prelude::*;
use crate::base_lib::eff_attr::eff_collections::{lists_keys, values_in_order};
use crate::base_lib::eff_attr::modifier_collections::{apply_ops, ModifierCollection, ModifierOp};

verus! {

/// At the start of a frame, makes the modifiers queued in the previous frame take
/// effect.
pub fn commit_pending_modifiers(modifiers: &mut ModifierCollection)
    requires
        old(modifiers).wf(),
    ensures
        final(modifiers).wf(),
        old(modifiers).pending().len() == 0 ==> *final(modifiers) == *old(modifiers),
        old(modifiers).pending().len() > 0 ==> {
            &&& final(modifiers).contents() == apply_ops(
                old(modifiers).contents(),
                old(modifiers).pending(),
            )
            &&& final(modifiers).pending() == Seq::<ModifierOp>::empty()
            &&& final(modifiers).dirty()
        },
{
    modifiers.commit_pending();
}

/// The lazy half of reading a stat attribute: when the modifiers changed since the
/// last read, clears the mark and hands them out, so that the attribute can be
/// refreshed from them; otherwise hands out nothing and changes nothing.
pub fn take_dirty_modifiers(modifiers: &mut ModifierCollection) -> (r: Option<Vec<u64>>)
    requires
        old(modifiers).wf(),
    ensures
        final(modifiers).wf(),
        final(modifiers).contents() == old(modifiers).contents(),
        final(modifiers).pending() == old(modifiers).pending(),
        !final(modifiers).dirty(),
        old(modifiers).dirty() ==> (r matches Some(v) && exists|keys: Seq<u64>|
            #![trigger values_in_order(old(modifiers).contents(), keys)]
            lists_keys(old(modifiers).contents(), keys) && v@ == values_in_order(
                old(modifiers).contents(),
                keys,
            )),
        !old(modifiers).dirty() ==> r is None,
{
    if modifiers.is_dirty() {
        modifiers.reset_flag();
        Some(modifiers.iter())
    } else {
        None
    }
}

} // verus!
