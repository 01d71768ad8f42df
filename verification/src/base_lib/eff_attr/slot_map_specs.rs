//! The `slotmap` crate's `SlotMap`, as the effect collections use it: keys handed out
//! as 64-bit handles, values as 64-bit handles of the items they stand for.
//!
//! A key's handle is `KeyData::as_ffi` of the key; a handle is turned back into a
//! key with `KeyData::from_ffi`, which reads the handle with its version made odd,
//! that is with bit 32 set. Handles given out always have that bit set.
use vstd::prelude::*;
use slotmap::{DefaultKey, KeyData, SlotMap};

verus! {

/// A `SlotMap` from `DefaultKey` to 64-bit values, kept whole and out of Verus's
/// sight; the functions below are the only way in.
#[verifier::external_body]
pub struct HandleSlotMap {
    map: SlotMap<DefaultKey, u64>,
}

/// What a slot map holds: the handle of each live key, mapped to its value.
pub uninterp spec fn slot_map_contents(m: HandleSlotMap) -> Map<u64, u64>;

/// The handle under which `SlotMap` finds the key that handle `k` names.
pub open spec fn key_handle(k: u64) -> u64 {
    k | 0x1_0000_0000u64
}

/// The slot index that handle `k` carries in its low 32 bits.
pub open spec fn slot_index(k: u64) -> int {
    (k % 0x1_0000_0000u64) as int
}

/// `SlotMap::new`: an empty slot map.
#[verifier::external_body]
pub(crate) fn slot_map_new() -> (r: HandleSlotMap)
    ensures
        slot_map_contents(r) =~= Map::empty(),
{
    HandleSlotMap { map: SlotMap::new() }
}

/// `SlotMap::insert`: stores `value` under a fresh key and returns the key's handle.
/// The source panics when the map is full, that is when it holds `u32::MAX - 1`
/// values; this is left out by `requires`.
#[verifier::external_body]
pub(crate) fn slot_map_insert(m: &mut HandleSlotMap, value: u64) -> (r: u64)
    requires
        slot_map_contents(*old(m)).dom().finite(),
        slot_map_contents(*old(m)).len() < 0xffff_fffeu64,
    ensures
        r == key_handle(r),
        !slot_map_contents(*old(m)).contains_key(r),
        slot_map_contents(*final(m)) == slot_map_contents(*old(m)).insert(r, value),
{
    slotmap::Key::data(&m.map.insert(value)).as_ffi()
}

/// `SlotMap::remove`: removes the value under the key that `key` names, if live.
#[verifier::external_body]
pub(crate) fn slot_map_remove(m: &mut HandleSlotMap, key: u64) -> (r: Option<u64>)
    ensures
        slot_map_contents(*old(m)).contains_key(key_handle(key)) ==> r == Some(
            slot_map_contents(*old(m))[key_handle(key)],
        ) && slot_map_contents(*final(m)) == slot_map_contents(*old(m)).remove(key_handle(key)),
        !slot_map_contents(*old(m)).contains_key(key_handle(key)) ==> r is None && slot_map_contents(
            *final(m),
        ) == slot_map_contents(*old(m)),
{
    let k: DefaultKey = KeyData::from_ffi(key).into();
    m.map.remove(k)
}

/// `SlotMap::get_mut`: the value under the key that `key` names, if live, for update
/// in place.
#[verifier::external_body]
pub(crate) fn slot_map_get_mut(m: &mut HandleSlotMap, key: u64) -> (r: Option<&mut u64>)
    ensures
        slot_map_contents(*old(m)).contains_key(key_handle(key)) ==> r is Some && *r.unwrap()
            == slot_map_contents(*old(m))[key_handle(key)] && slot_map_contents(*final(m))
            == slot_map_contents(*old(m)).insert(key_handle(key), *final(r.unwrap())),
        !slot_map_contents(*old(m)).contains_key(key_handle(key)) ==> r is None && slot_map_contents(
            *final(m),
        ) == slot_map_contents(*old(m)),
{
    let k: DefaultKey = KeyData::from_ffi(key).into();
    m.map.get_mut(k)
}

/// `SlotMap::len`: how many values the map holds.
#[verifier::external_body]
pub(crate) fn slot_map_len(m: &HandleSlotMap) -> (r: usize)
    ensures
        r == slot_map_contents(*m).len(),
{
    m.map.len()
}

/// `SlotMap::iter`: every live key's handle with its value, each once. The
/// documentation calls the order arbitrary; the source walks the slots from the
/// first on, so the handles come by increasing slot index.
#[verifier::external_body]
pub(crate) fn slot_map_iter(m: &HandleSlotMap) -> (r: Vec<(u64, u64)>)
    ensures
        r@.len() == slot_map_contents(*m).len(),
        forall|i: int|
            0 <= i < r@.len() ==> slot_map_contents(*m).contains_key(#[trigger] r@[i].0)
                && slot_map_contents(*m)[r@[i].0] == r@[i].1,
        forall|i: int, j: int|
            0 <= i < j < r@.len() ==> slot_index((#[trigger] r@[i]).0) < slot_index(
                (#[trigger] r@[j]).0,
            ),
{
    m.map.iter().map(|(k, v)| (slotmap::Key::data(&k).as_ffi(), *v)).collect()
}

} // verus!
