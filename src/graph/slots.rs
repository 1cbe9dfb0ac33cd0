//! The node arena: a `slotmap::SlotMap` of node shapes, behind trusted items.
//!
//! A key is handed out as its 64-bit form (`KeyData::as_ffi`): the slot
//! version in the upper half, always odd for an occupied slot, and the slot
//! index in the lower half.
use vstd::prelude::*;
use slotmap::{DefaultKey, Key, KeyData, SlotMap};
use crate::graph::node::NodeInfo;

verus! {

/// The node arena: a slot map of node shapes, which Verus sees only
/// through the functions below.
#[verifier::external_body]
pub struct Arena {
    slots: SlotMap<DefaultKey, NodeInfo>,
}

/// The contents of an arena, by the 64-bit form of each key.
pub uninterp spec fn arena_contents(m: Arena) -> Map<u64, NodeInfo>;

/// The keys of an arena in the order `SlotMap::keys` yields them: the order
/// of their slots, which the arena's state fixes.
pub uninterp spec fn arena_order(m: Arena) -> Seq<u64>;

/// A 64-bit key form with an odd version, as every occupied slot has.
pub open spec fn is_slot_id(id: u64) -> bool {
    (id as int / 0x1_0000_0000) % 2 == 1
}

/// Tells apart the 64-bit forms that can name an occupied slot.
pub(crate) fn slot_id_form(id: u64) -> (r: bool)
    ensures
        r == is_slot_id(id),
{
    (id / 0x1_0000_0000) % 2 == 1
}

/// Relies on `SlotMap::new`: the arena starts empty.
#[verifier::external_body]
pub(crate) fn arena_new() -> (r: Arena)
    ensures
        arena_contents(r).dom() == Set::<u64>::empty(),
{
    Arena { slots: SlotMap::new() }
}

/// Relies on `SlotMap::insert` and `KeyData::as_ffi`: the value lands under
/// a key that no occupied slot had, in an occupied slot (odd version). The
/// slot vector also holds a sentinel at index 0, and `insert` panics once it
/// holds `u32::MAX` slots with none free, that is with `u32::MAX - 1` values.
#[verifier::external_body]
pub(crate) fn arena_insert(m: &mut Arena, v: NodeInfo) -> (id: u64)
    requires
        arena_contents(*old(m)).dom().finite(),
        arena_contents(*old(m)).len() < u32::MAX - 1,
    ensures
        is_slot_id(id),
        !arena_contents(*old(m)).contains_key(id),
        arena_contents(*final(m)) == arena_contents(*old(m)).insert(id, v),
{
    m.slots.insert(v).data().as_ffi()
}

/// Relies on `SlotMap::remove` and `KeyData::from_ffi`: for a key form with
/// an odd version, `from_ffi` gives back the key, and `remove` takes out the
/// value under it if the slot holds one.
#[verifier::external_body]
pub(crate) fn arena_remove(m: &mut Arena, id: u64) -> (r: Option<
    NodeInfo,
>)
    requires
        is_slot_id(id),
    ensures
        arena_contents(*old(m)).contains_key(id) ==> r == Some(arena_contents(*old(m))[id]),
        !arena_contents(*old(m)).contains_key(id) ==> r is None,
        arena_contents(*final(m)) == arena_contents(*old(m)).remove(id),
{
    m.slots.remove(DefaultKey::from(KeyData::from_ffi(id)))
}

/// Relies on `SlotMap::get` and `KeyData::from_ffi`, as `arena_remove` does.
#[verifier::external_body]
pub(crate) fn arena_get(m: &Arena, id: u64) -> (r: Option<&NodeInfo>)
    requires
        is_slot_id(id),
    ensures
        arena_contents(*m).contains_key(id) ==> r == Some(&arena_contents(*m)[id]),
        !arena_contents(*m).contains_key(id) ==> r is None,
{
    m.slots.get(DefaultKey::from(KeyData::from_ffi(id)))
}

/// Relies on `SlotMap::len`: the number of occupied slots.
#[verifier::external_body]
pub(crate) fn arena_len(m: &Arena) -> (r: usize)
    ensures
        r == arena_contents(*m).len(),
{
    m.slots.len()
}

/// Relies on `SlotMap::keys`: each occupied slot's key once, in slot order,
/// so the same arena state gives the same sequence.
#[verifier::external_body]
pub(crate) fn arena_ids(m: &Arena) -> (r: Vec<u64>)
    ensures
        r@ == arena_order(*m),
        r@.no_duplicates(),
        forall|id: u64| r@.contains(id) <==> arena_contents(*m).contains_key(id),
{
    m.slots.keys().map(|k| k.data().as_ffi()).collect()
}

} // verus!
