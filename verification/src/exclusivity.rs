//! The exclusivity model: the engine is one exclusive resource, and the
//! lock in front of it admits one execution at a time.
//!
//! The engine mutates process-global interpreter state — the active output
//! buffer, the variable tables, the script context — with no per-call
//! isolation, so executions must be serialized for the whole bracket,
//! capture through parse. The model below is the instrumented count of
//! executions inside that exclusive region: a lock that admits an entry
//! only when the region is empty keeps the count at one, under every
//! interleaving of arrivals and departures.

use vstd::prelude::*;

verus! {

/// One event at the lock: an arrival that may enter, or the holder leaving.
#[derive(Debug, Clone, Copy, PartialEq, Eq, Structural)]
pub enum GateEvent {
    Acquire,
    Release,
}

/// The count of executions inside the exclusive region after one event: an
/// acquire enters only when the region is empty — any other caller blocks
/// outside and makes its own acquire event later — and a release leaves
/// the region empty.
pub open spec fn gate_step(active: nat, e: GateEvent) -> nat {
    match e {
        GateEvent::Acquire => {
            if active == 0 {
                1
            } else {
                active
            }
        },
        GateEvent::Release => 0,
    }
}

/// The count inside the exclusive region after a sequence of events.
pub open spec fn active_after(active: nat, es: Seq<GateEvent>) -> nat
    decreases es.len(),
{
    if es.len() == 0 {
        active
    } else {
        active_after(gate_step(active, es[0]), es.drop_first())
    }
}

proof fn lemma_gate_bound(active: nat, es: Seq<GateEvent>)
    requires
        active <= 1,
    ensures
        active_after(active, es) <= 1,
    decreases es.len(),
{
    if es.len() > 0 {
        lemma_gate_bound(gate_step(active, es[0]), es.drop_first());
    }
}

/// Exclusivity: starting from an empty region, no interleaving of acquires
/// and releases ever puts two executions inside the exclusive region — the
/// instrumented count never exceeds one.
pub proof fn lemma_exclusivity(es: Seq<GateEvent>)
    ensures
        active_after(0, es) <= 1,
{
    lemma_gate_bound(0, es);
}

} // verus!
