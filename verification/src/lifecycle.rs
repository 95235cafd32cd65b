//! The runtime lifecycle: at-most-one initialization, at-most-one shutdown.
//!
//! The foreign runtime is process-global and non-reentrant: its initializer
//! must run at most once, a failed start must never be retried, and its
//! teardown must run at most once and only after a successful start. The
//! manager here is the sequential core of that discipline: the embedding
//! host wraps it in its one-time barrier and its lock, calls the foreign
//! entry points exactly when told to, and reports their outcomes back.

use vstd::prelude::*;
use crate::executor::ExecError;

verus! {

/// Why the runtime failed to start: the engine's initializer reported a
/// failure, surfaced verbatim as its integer code.
#[derive(Debug, Clone, Copy, PartialEq, Eq, Structural)]
pub enum InitError {
    StartupFailed { code: i32 },
}

/// The process-wide state of the embedded runtime.
///
/// `Uninitialized` moves through `Initializing` to `Ready` or, on a failed
/// start, to `FailedInit`, which is terminal: the engine's global state
/// after a failed start cannot be trusted for a second attempt. `Ready`
/// moves to `ShutDown` when the owner tears the runtime down, and
/// `ShutDown` is terminal too: the engine cannot be reinitialized within
/// the same process.
#[derive(Debug, Clone, Copy, PartialEq, Eq, Structural)]
pub enum RuntimeState {
    Uninitialized,
    Initializing,
    Ready,
    FailedInit { code: i32 },
    ShutDown,
}

// ---------------------------------------------------------------------------
// The lifecycle, as a machine over event sequences
// ---------------------------------------------------------------------------

/// One lifecycle event, as the embedding host produces them: some caller
/// enters initialization, the winning caller records the initializer's code,
/// or the owner tears the runtime down.
#[derive(Debug, Clone, Copy, PartialEq, Eq, Structural)]
pub enum LifecycleEvent {
    BeginInit,
    FinishInit { code: i32 },
    Shutdown,
}

/// The state after one event. Every transition not drawn here leaves the
/// state alone: a late `BeginInit` finds the state taken, a `FinishInit`
/// without a pending initialization records nothing, a `Shutdown` of a
/// runtime that is not ready orders nothing.
pub open spec fn lifecycle_step(s: RuntimeState, e: LifecycleEvent) -> RuntimeState {
    match e {
        LifecycleEvent::BeginInit => {
            if s == RuntimeState::Uninitialized {
                RuntimeState::Initializing
            } else {
                s
            }
        },
        LifecycleEvent::FinishInit { code } => {
            if s == RuntimeState::Initializing {
                if code == 0 {
                    RuntimeState::Ready
                } else {
                    RuntimeState::FailedInit { code }
                }
            } else {
                s
            }
        },
        LifecycleEvent::Shutdown => {
            if s == RuntimeState::Ready {
                RuntimeState::ShutDown
            } else {
                s
            }
        },
    }
}

/// Whether the event makes the engine's initializer run: only the one
/// caller that finds the state untouched runs it.
pub open spec fn fires_init(s: RuntimeState, e: LifecycleEvent) -> bool {
    e == LifecycleEvent::BeginInit && s == RuntimeState::Uninitialized
}

/// Whether the event makes the engine's teardown run: only a shutdown of a
/// ready runtime does.
pub open spec fn fires_shutdown(s: RuntimeState, e: LifecycleEvent) -> bool {
    e == LifecycleEvent::Shutdown && s == RuntimeState::Ready
}

/// The state after a sequence of events.
pub open spec fn run_events(s: RuntimeState, es: Seq<LifecycleEvent>) -> RuntimeState
    decreases es.len(),
{
    if es.len() == 0 {
        s
    } else {
        run_events(lifecycle_step(s, es[0]), es.drop_first())
    }
}

/// How many events of the sequence make the engine's initializer run.
pub open spec fn init_calls(s: RuntimeState, es: Seq<LifecycleEvent>) -> nat
    decreases es.len(),
{
    if es.len() == 0 {
        0
    } else {
        (if fires_init(s, es[0]) {
            1nat
        } else {
            0nat
        }) + init_calls(lifecycle_step(s, es[0]), es.drop_first())
    }
}

/// How many events of the sequence make the engine's teardown run.
pub open spec fn shutdown_calls(s: RuntimeState, es: Seq<LifecycleEvent>) -> nat
    decreases es.len(),
{
    if es.len() == 0 {
        0
    } else {
        (if fires_shutdown(s, es[0]) {
            1nat
        } else {
            0nat
        }) + shutdown_calls(lifecycle_step(s, es[0]), es.drop_first())
    }
}

/// How many events record a successful initialization.
pub open spec fn successful_finishes(es: Seq<LifecycleEvent>) -> nat
    decreases es.len(),
{
    if es.len() == 0 {
        0
    } else {
        (if es[0] == (LifecycleEvent::FinishInit { code: 0 }) {
            1nat
        } else {
            0nat
        }) + successful_finishes(es.drop_first())
    }
}

proof fn lemma_init_calls_bound(s: RuntimeState, es: Seq<LifecycleEvent>)
    ensures
        init_calls(s, es) <= 1,
        s != RuntimeState::Uninitialized ==> init_calls(s, es) == 0,
    decreases es.len(),
{
    if es.len() > 0 {
        lemma_init_calls_bound(lifecycle_step(s, es[0]), es.drop_first());
    }
}

proof fn lemma_shutdown_calls_bound(s: RuntimeState, es: Seq<LifecycleEvent>)
    ensures
        shutdown_calls(s, es) <= 1,
        s == RuntimeState::ShutDown ==> shutdown_calls(s, es) == 0,
    decreases es.len(),
{
    if es.len() > 0 {
        lemma_shutdown_calls_bound(lifecycle_step(s, es[0]), es.drop_first());
    }
}

proof fn lemma_ready_has_success(s: RuntimeState, es: Seq<LifecycleEvent>)
    ensures
        run_events(s, es) == RuntimeState::Ready ==> s == RuntimeState::Ready
            || successful_finishes(es) >= 1,
    decreases es.len(),
{
    if es.len() > 0 {
        lemma_ready_has_success(lifecycle_step(s, es[0]), es.drop_first());
    }
}

/// Idempotent initialization: whatever sequence of lifecycle events a
/// process produces from its start, the engine's initializer runs at most
/// once; every other caller only observes the recorded outcome.
pub proof fn lemma_init_at_most_once(es: Seq<LifecycleEvent>)
    ensures
        init_calls(RuntimeState::Uninitialized, es) <= 1,
{
    lemma_init_calls_bound(RuntimeState::Uninitialized, es);
}

/// A recorded initialization failure is terminal: no later event moves the
/// state, so every caller that looks observes the same failure.
pub proof fn lemma_failed_init_terminal(code: i32, es: Seq<LifecycleEvent>)
    ensures
        run_events(RuntimeState::FailedInit { code }, es) == (RuntimeState::FailedInit { code }),
    decreases es.len(),
{
    if es.len() > 0 {
        lemma_failed_init_terminal(code, es.drop_first());
    }
}

/// From `Ready` the runtime only ever stays ready or shuts down: a recorded
/// success is never unrecorded, and a shutdown is final.
pub proof fn lemma_ready_stable(es: Seq<LifecycleEvent>)
    ensures
        run_events(RuntimeState::Ready, es) == RuntimeState::Ready || run_events(
            RuntimeState::Ready,
            es,
        ) == RuntimeState::ShutDown,
    decreases es.len(),
{
    if es.len() > 0 {
        let s1 = lifecycle_step(RuntimeState::Ready, es[0]);
        if s1 == RuntimeState::Ready {
            lemma_ready_stable(es.drop_first());
        } else {
            lemma_shutdown_terminal(es.drop_first());
        }
    }
}

/// A shut-down runtime stays shut down.
pub proof fn lemma_shutdown_terminal(es: Seq<LifecycleEvent>)
    ensures
        run_events(RuntimeState::ShutDown, es) == RuntimeState::ShutDown,
    decreases es.len(),
{
    if es.len() > 0 {
        lemma_shutdown_terminal(es.drop_first());
    }
}

/// Exactly-once shutdown: over any event sequence from process start the
/// engine's teardown runs at most once, and wherever it runs, a successful
/// initialization was recorded strictly before it.
pub proof fn lemma_shutdown_exactly_once(es: Seq<LifecycleEvent>, i: int)
    requires
        0 <= i < es.len(),
        fires_shutdown(run_events(RuntimeState::Uninitialized, es.take(i)), es[i]),
    ensures
        shutdown_calls(RuntimeState::Uninitialized, es) <= 1,
        successful_finishes(es.take(i)) >= 1,
{
    lemma_shutdown_calls_bound(RuntimeState::Uninitialized, es);
    lemma_ready_has_success(RuntimeState::Uninitialized, es.take(i));
}

// ---------------------------------------------------------------------------
// The lifecycle manager
// ---------------------------------------------------------------------------

/// The request counter after one more request; the count is observability
/// only and wraps rather than fail.
pub open spec fn next_count(c: u64) -> u64 {
    if c == 0xffff_ffff_ffff_ffff {
        0
    } else {
        (c + 1) as u64
    }
}

/// The runtime lifecycle manager: the process-wide state of the embedded
/// engine and the request counter.
///
/// Exactly one logical instance should exist per process; the embedding
/// host serializes access to it. Its methods decide when the foreign
/// initializer, executor and teardown may run; the host performs those
/// calls and reports back.
#[derive(Debug)]
pub struct PhpSapi {
    state: RuntimeState,
    requests: u64,
}

impl PhpSapi {
    /// The recorded runtime state.
    pub closed spec fn runtime_state(&self) -> RuntimeState {
        self.state
    }

    /// How many requests have been admitted.
    pub closed spec fn count(&self) -> u64 {
        self.requests
    }

    /// A fresh manager: nothing initialized, no requests seen.
    pub fn new() -> (r: PhpSapi)
        ensures
            r.runtime_state() == RuntimeState::Uninitialized,
            r.count() == 0,
    {
        PhpSapi { state: RuntimeState::Uninitialized, requests: 0 }
    }

    /// First step of initialization. Exactly the caller that finds the state
    /// untouched is told to run the engine's initializer; any other caller
    /// is told not to, and waits for or reads the recorded outcome.
    pub fn begin_initialize(&mut self) -> (run_init: bool)
        ensures
            run_init == fires_init(old(self).runtime_state(), LifecycleEvent::BeginInit),
            final(self).runtime_state() == lifecycle_step(
                old(self).runtime_state(),
                LifecycleEvent::BeginInit,
            ),
            final(self).count() == old(self).count(),
    {
        match self.state {
            RuntimeState::Uninitialized => {
                self.state = RuntimeState::Initializing;
                true
            },
            _ => false,
        }
    }

    /// Record the engine initializer's outcome: code zero is success, any
    /// other code a terminal failure kept verbatim.
    pub fn finish_initialize(&mut self, code: i32)
        requires
            old(self).runtime_state() == RuntimeState::Initializing,
        ensures
            final(self).runtime_state() == lifecycle_step(
                old(self).runtime_state(),
                LifecycleEvent::FinishInit { code },
            ),
            final(self).count() == old(self).count(),
    {
        if code == 0 {
            self.state = RuntimeState::Ready;
        } else {
            self.state = RuntimeState::FailedInit { code };
        }
    }

    /// The recorded outcome of initialization, the same for every caller
    /// that asks once an attempt has completed.
    pub fn init_outcome(&self) -> (r: Result<(), InitError>)
        requires
            self.runtime_state() == RuntimeState::Ready || (self.runtime_state() matches
            RuntimeState::FailedInit { .. }),
        ensures
            self.runtime_state() == RuntimeState::Ready ==> r == Ok::<(), InitError>(()),
            forall|code: i32|
                self.runtime_state() == (RuntimeState::FailedInit { code }) ==> r == Err::<
                    (),
                    InitError,
                >(InitError::StartupFailed { code }),
    {
        match self.state {
            RuntimeState::Ready => Ok(()),
            RuntimeState::FailedInit { code } => Err(InitError::StartupFailed { code }),
            _ => Err(InitError::StartupFailed { code: -1 }),
        }
    }

    /// The current runtime state, for the embedding host to consult before
    /// it calls a foreign entry point.
    pub fn current_state(&self) -> (r: RuntimeState)
        ensures
            r == self.runtime_state(),
    {
        self.state
    }

    /// Whether the runtime is ready for execution: initialized, and not yet
    /// shut down.
    pub fn is_available(&self) -> (r: bool)
        ensures
            r == (self.runtime_state() == RuntimeState::Ready),
    {
        matches!(self.state, RuntimeState::Ready)
    }

    /// How many requests have been admitted.
    pub fn request_count(&self) -> (r: u64)
        ensures
            r == self.count(),
    {
        self.requests
    }

    /// Admission of one request: fails fast when the runtime is not ready —
    /// before, after a failed start, or after shutdown — with no foreign
    /// call and no change; otherwise counts the request.
    pub fn begin_request(&mut self) -> (r: Result<(), ExecError>)
        ensures
            old(self).runtime_state() == RuntimeState::Ready ==> r == Ok::<(), ExecError>(())
                && final(self).runtime_state() == RuntimeState::Ready && final(self).count()
                == next_count(old(self).count()),
            old(self).runtime_state() != RuntimeState::Ready ==> r == Err::<(), ExecError>(
                ExecError::NotInitialized,
            ) && *final(self) == *old(self),
    {
        match self.state {
            RuntimeState::Ready => {
                self.requests = if self.requests == 0xffff_ffff_ffff_ffff {
                    0
                } else {
                    self.requests + 1
                };
                Ok(())
            },
            _ => Err(ExecError::NotInitialized),
        }
    }

    /// Shutdown decision at the owner's teardown: the engine's teardown is
    /// ordered exactly when the runtime is ready, and the state then moves
    /// to its terminal `ShutDown`; in every other state nothing runs.
    pub fn begin_shutdown(&mut self) -> (run_shutdown: bool)
        ensures
            run_shutdown == fires_shutdown(old(self).runtime_state(), LifecycleEvent::Shutdown),
            final(self).runtime_state() == lifecycle_step(
                old(self).runtime_state(),
                LifecycleEvent::Shutdown,
            ),
            final(self).count() == old(self).count(),
    {
        match self.state {
            RuntimeState::Ready => {
                self.state = RuntimeState::ShutDown;
                true
            },
            _ => false,
        }
    }

    /// An observability snapshot: whether the runtime is ready, and how many
    /// requests have been admitted.
    pub fn stats(&self) -> (r: SapiStats)
        ensures
            r.initialized == (self.runtime_state() == RuntimeState::Ready),
            r.request_count == self.count(),
    {
        SapiStats { initialized: matches!(self.state, RuntimeState::Ready), request_count: self.requests }
    }
}

impl Default for PhpSapi {
    /// A fresh manager, as `new` builds it.
    fn default() -> (r: Self)
        ensures
            r.runtime_state() == RuntimeState::Uninitialized,
            r.count() == 0,
    {
        PhpSapi::new()
    }
}

/// A snapshot of the manager for reporting.
#[derive(Debug, Clone, Copy, PartialEq, Eq, Structural)]
pub struct SapiStats {
    /// Whether the runtime is ready.
    pub initialized: bool,
    /// How many requests have been admitted.
    pub request_count: u64,
}

} // verus!
