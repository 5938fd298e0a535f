//! Decisions of the dispatch loop: which train is due next, how large an
//! emitted packet may be, and when the loop may suspend itself.
//!
//! The loop itself lives with the caller, which owns the clock, the random
//! source and the socket; every decision it takes is computed here.

use vstd::prelude::*;
use crate::packet_train::PacketTrain;

verus! {

/// Largest payload the transport accepts in one packet: a tunnel-safe MTU.
pub const MAX_PAYLOAD_BYTES: usize = 1420;

/// The loop suspends itself only when the earliest pending transition is
/// further away than this, in microseconds; closer than that it busy-polls
/// for timing accuracy.
pub const IDLE_WAIT_THRESHOLD_MICROS: u64 = 1000;

/// Clamp a sampled packet size to the transport's maximum payload: the
/// emitted length is the minimum of the two.
pub fn clamp_size(sampled_size: u64, max_payload: usize) -> (r: usize)
    ensures
        r == vstd::math::min(sampled_size as int, max_payload as int),
        r <= max_payload,
{
    if sampled_size > max_payload as u64 {
        max_payload
    } else {
        sampled_size as usize
    }
}

/// The next instant any train needs a state re-evaluation: the least
/// `current_status_until` over the set.
pub fn earliest_due(trains: &Vec<PacketTrain>) -> (r: u64)
    requires
        trains@.len() > 0,
    ensures
        forall|i: int| 0 <= i < trains@.len() ==> r <= trains@[i].current_status_until,
        exists|i: int| 0 <= i < trains@.len() && r == trains@[i].current_status_until,
{
    let mut r = trains[0].current_status_until;
    let mut k: usize = 1;
    while k < trains.len()
        invariant
            1 <= k <= trains@.len(),
            forall|i: int| 0 <= i < k ==> r <= trains@[i].current_status_until,
            exists|i: int| 0 <= i < k && r == trains@[i].current_status_until,
        decreases trains@.len() - k,
    {
        if trains[k].current_status_until < r {
            r = trains[k].current_status_until;
        }
        k = k + 1;
    }
    r
}

/// Whether any train in the set is in its active period.
pub fn any_on(trains: &Vec<PacketTrain>) -> (r: bool)
    ensures
        r == (exists|i: int| 0 <= i < trains@.len() && trains@[i].currently_on),
{
    let mut k: usize = 0;
    while k < trains.len()
        invariant
            0 <= k <= trains@.len(),
            forall|i: int| 0 <= i < k ==> !trains@[i].currently_on,
        decreases trains@.len() - k,
    {
        if trains[k].currently_on {
            return true;
        }
        k = k + 1;
    }
    false
}

/// The idle-wait decision: the loop suspends itself until `earliest` exactly
/// when no train is active and the earliest pending transition is more than
/// `IDLE_WAIT_THRESHOLD_MICROS` away from `now`.
pub fn should_sleep(any_train_on: bool, earliest: u64, now: u64) -> (r: bool)
    ensures
        r == (!any_train_on && earliest > now + IDLE_WAIT_THRESHOLD_MICROS),
{
    !any_train_on && earliest > now && earliest - now > IDLE_WAIT_THRESHOLD_MICROS
}

/// Idle-wait law: with `earliest` the least period end over a non-empty set
/// of trains and `active` whether any train is on, the sleep decision holds
/// exactly when every train is idle and every pending transition is more
/// than the threshold away; in particular the loop never sleeps while a
/// train is on or a transition is imminent.
pub proof fn lemma_idle_wait(trains: Seq<PacketTrain>, active: bool, earliest: u64, now: u64)
    requires
        trains.len() > 0,
        forall|i: int| 0 <= i < trains.len() ==> earliest <= trains[i].current_status_until,
        exists|i: int| 0 <= i < trains.len() && earliest == trains[i].current_status_until,
        active == (exists|i: int| 0 <= i < trains.len() && trains[i].currently_on),
    ensures
        (!active && earliest > now + IDLE_WAIT_THRESHOLD_MICROS) <==> ((forall|i: int|
            0 <= i < trains.len() ==> !trains[i].currently_on) && (forall|i: int|
            0 <= i < trains.len() ==> trains[i].current_status_until > now
                + IDLE_WAIT_THRESHOLD_MICROS)),
{
    if !active && earliest > now + IDLE_WAIT_THRESHOLD_MICROS {
        assert(forall|i: int|
            0 <= i < trains.len() ==> trains[i].current_status_until > now
                + IDLE_WAIT_THRESHOLD_MICROS);
    }
    if (forall|i: int| 0 <= i < trains.len() ==> !trains[i].currently_on) && (forall|i: int|
        0 <= i < trains.len() ==> trains[i].current_status_until > now
            + IDLE_WAIT_THRESHOLD_MICROS) {
        let j = choose|j: int|
            0 <= j < trains.len() && earliest == trains[j].current_status_until;
        assert(earliest > now + IDLE_WAIT_THRESHOLD_MICROS);
    }
}

} // verus!
