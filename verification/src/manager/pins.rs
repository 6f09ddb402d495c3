//! What keeps snapshots from being deleted.

use crate::manager::rows::{same_owner, Pin, PinOwner, PinReason};
use crate::manager::table::{any, remove, removing, some};
use vstd::prelude::*;

verus! {

/// The pins of an owner.
pub open spec fn pins_of(owner: PinOwner) -> spec_fn(Pin) -> bool {
    |pin: Pin| pin.owner == owner
}

/// The pins of an owner on a snapshot.
pub open spec fn pins_on(snapshot_id: i64, owner: PinOwner) -> spec_fn(Pin) -> bool {
    |pin: Pin| pin.snapshot_id == snapshot_id && pin.owner == owner
}

/// The pins of an owner on a snapshot for a reason.
pub open spec fn pins_for(snapshot_id: i64, owner: PinOwner, reason: PinReason) -> spec_fn(
    Pin,
) -> bool {
    |pin: Pin| pin.snapshot_id == snapshot_id && pin.owner == owner && pin.reason == reason
}

/// All pins on a snapshot.
pub open spec fn pins_to(snapshot_id: i64) -> spec_fn(Pin) -> bool {
    |pin: Pin| pin.snapshot_id == snapshot_id
}

/// Removes the pins of an owner.
pub fn unpin_owner(pins: &mut Vec<Pin>, owner: PinOwner)
    ensures
        final(pins)@ == removing(old(pins)@, pins_of(owner)),
{
    let test = |pin: &Pin| -> (picked: bool)
        ensures
            picked == pins_of(owner)(*pin),
        { same_owner(&pin.owner, &owner) };
    remove(pins, test, Ghost(pins_of(owner)));
}

/// Removes the pins of an owner on a snapshot.
pub fn unpin(pins: &mut Vec<Pin>, snapshot_id: i64, owner: PinOwner)
    ensures
        final(pins)@ == removing(old(pins)@, pins_on(snapshot_id, owner)),
{
    let test = |pin: &Pin| -> (picked: bool)
        ensures
            picked == pins_on(snapshot_id, owner)(*pin),
        { pin.snapshot_id == snapshot_id && same_owner(&pin.owner, &owner) };
    remove(pins, test, Ghost(pins_on(snapshot_id, owner)));
}

/// Removes the pins of an owner on a snapshot for a reason.
pub fn unpin_reason(pins: &mut Vec<Pin>, snapshot_id: i64, owner: PinOwner, reason: PinReason)
    ensures
        final(pins)@ == removing(old(pins)@, pins_for(snapshot_id, owner, reason)),
{
    let test = |pin: &Pin| -> (picked: bool)
        ensures
            picked == pins_for(snapshot_id, owner, reason)(*pin),
        {
            pin.snapshot_id == snapshot_id && same_owner(&pin.owner, &owner) && pin.reason
                == reason
        };
    remove(pins, test, Ghost(pins_for(snapshot_id, owner, reason)));
}

/// Whether anything keeps a snapshot.
pub fn is_pinned(pins: &Vec<Pin>, snapshot_id: i64) -> (pinned: bool)
    ensures
        pinned == some(pins@, pins_to(snapshot_id)),
{
    let test = |pin: &Pin| -> (picked: bool)
        ensures
            picked == pins_to(snapshot_id)(*pin),
        { pin.snapshot_id == snapshot_id };
    any(pins, test, Ghost(pins_to(snapshot_id)))
}

} // verus!
