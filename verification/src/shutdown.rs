//! Admission and bounded shutdown.

use vstd::prelude::*;

verus! {

/// Result of a bounded graceful drain.
#[derive(Debug, Clone, Copy, PartialEq, Eq, Structural)]
pub enum DrainOutcome {
    /// Every admitted operation completed within the bound.
    Graceful,
    /// The bound elapsed or the drain owner was cancelled.
    Forced,
}

/// Where admission stands.
#[derive(Debug, Clone, Copy, PartialEq, Eq, Structural)]
pub enum Phase {
    /// Operations are admitted.
    Accepting,
    /// No operation is admitted; admitted ones may complete.
    Draining,
    /// Shutdown is terminal.
    Stopped(DrainOutcome),
}

/// The phase and the operations admitted and not yet completed.
pub struct GateState {
    /// Where admission stands.
    pub phase: Phase,
    /// Operations admitted and not yet completed.
    pub active: nat,
}

impl GateState {
    /// Whether an operation would be admitted.
    pub open spec fn admits(self) -> bool {
        self.phase == Phase::Accepting && self.active < usize::MAX
    }

    /// After an operation asked for admission.
    pub open spec fn entered(self) -> GateState {
        if self.admits() {
            GateState { active: self.active + 1, ..self }
        } else {
            self
        }
    }

    /// After an admitted operation completed: the last one to complete ends a drain gracefully.
    pub open spec fn left(self) -> GateState {
        let active = if self.active == 0 {
            0
        } else {
            (self.active - 1) as nat
        };
        if self.phase == Phase::Draining && active == 0 {
            GateState { phase: Phase::Stopped(DrainOutcome::Graceful), active }
        } else {
            GateState { phase: self.phase, active }
        }
    }

    /// After shutdown was forced.
    pub open spec fn forced(self) -> GateState {
        if self.phase is Stopped {
            self
        } else {
            GateState { phase: Phase::Stopped(DrainOutcome::Forced), ..self }
        }
    }

    /// After a drain began.
    pub open spec fn draining(self) -> GateState {
        if self.phase is Stopped {
            self
        } else if self.active == 0 {
            GateState { phase: Phase::Stopped(DrainOutcome::Graceful), ..self }
        } else {
            GateState { phase: Phase::Draining, ..self }
        }
    }

    /// A graceful stop leaves no operation behind.
    pub open spec fn consistent(self) -> bool {
        self.phase == Phase::Stopped(DrainOutcome::Graceful) ==> self.active == 0
    }
}

/// How a drain ended that was waited for: as it was recorded, or forced where it was not over in
/// time.
pub open spec fn drain_outcome(state: GateState, in_time: bool) -> DrainOutcome {
    match state.phase {
        Phase::Stopped(done) if in_time => done,
        _ => DrainOutcome::Forced,
    }
}

/// Admission and bounded shutdown coordinator.
#[derive(Debug, Clone, Copy, PartialEq, Eq)]
pub struct ShutdownGate {
    phase: Phase,
    active: usize,
}

impl ShutdownGate {
    #[verifier::type_invariant]
    spec fn well_formed(self) -> bool {
        self.state().consistent()
    }

    /// The phase and count.
    pub closed spec fn state(self) -> GateState {
        GateState { phase: self.phase, active: self.active as nat }
    }

    /// Starts out accepting.
    pub fn new() -> (gate: Self)
        ensures
            gate.state() == (GateState { phase: Phase::Accepting, active: 0 }),
    {
        ShutdownGate { phase: Phase::Accepting, active: 0 }
    }

    /// Admits one operation, or refuses it after draining begins or when no more can be counted.
    pub fn try_enter(&mut self) -> (admitted: bool)
        ensures
            admitted == old(self).state().admits(),
            final(self).state() == old(self).state().entered(),
    {
        if self.phase != Phase::Accepting || self.active == usize::MAX {
            return false;
        }
        self.active += 1;
        true
    }

    /// Completes one admitted operation; true when this ended a drain.
    pub fn leave(&mut self) -> (ended: bool)
        ensures
            final(self).state() == old(self).state().left(),
            ended == (final(self).state().phase != old(self).state().phase),
    {
        let active: usize = if self.active > 0 {
            self.active - 1
        } else {
            0
        };
        proof {
            use_type_invariant(&*self);
        }
        if active == 0 && self.phase == Phase::Draining {
            *self = ShutdownGate { phase: Phase::Stopped(DrainOutcome::Graceful), active };
            true
        } else {
            *self = ShutdownGate { phase: self.phase, active };
            false
        }
    }

    /// Returns whether new work is still accepted.
    pub fn is_accepting(&self) -> (r: bool)
        ensures
            r == (self.state().phase == Phase::Accepting),
    {
        self.phase == Phase::Accepting
    }

    /// Whether the stop signal has been published.
    pub fn is_stopped(&self) -> (r: bool)
        ensures
            r == (self.state().phase is Stopped),
    {
        match self.phase {
            Phase::Stopped(_) => true,
            _ => false,
        }
    }

    /// Immediately stops admission and makes shutdown terminal.
    pub fn stop_now(&mut self)
        ensures
            final(self).state() == old(self).state().forced(),
    {
        if !self.is_stopped() {
            self.phase = Phase::Stopped(DrainOutcome::Forced);
        }
    }

    /// Stops admission. Returns the outcome where the drain is already over, and `None` where
    /// admitted operations are still to be waited for.
    pub fn begin_drain(&mut self) -> (outcome: Option<DrainOutcome>)
        ensures
            final(self).state() == old(self).state().draining(),
            outcome == match final(self).state().phase {
                Phase::Stopped(done) => Some(done),
                _ => None,
            },
    {
        match self.phase {
            Phase::Stopped(done) => {
                return Some(done);
            },
            _ => {},
        }
        if self.active == 0 {
            self.phase = Phase::Stopped(DrainOutcome::Graceful);
            Some(DrainOutcome::Graceful)
        } else {
            self.phase = Phase::Draining;
            None
        }
    }

    /// Ends a wait for admitted operations: a forced stop where the bound elapsed first, and
    /// otherwise the recorded outcome.
    pub fn end_drain(&mut self, in_time: bool) -> (outcome: DrainOutcome)
        ensures
            final(self).state() == if in_time {
                old(self).state()
            } else {
                old(self).state().forced()
            },
            outcome == if in_time && old(self).state().phase is Stopped {
                old(self).state().phase->Stopped_0
            } else {
                DrainOutcome::Forced
            },
            outcome == drain_outcome(old(self).state(), in_time),
    {
        if !in_time {
            self.stop_now();
            return DrainOutcome::Forced;
        }
        match self.phase {
            Phase::Stopped(done) => done,
            _ => DrainOutcome::Forced,
        }
    }
}

/// Once shutdown is terminal its outcome never changes and nothing is admitted.
pub proof fn stopped_is_terminal(state: GateState)
    requires
        state.phase is Stopped,
    ensures
        !state.admits(),
        state.entered() == state,
        state.left().phase == state.phase,
        state.forced() == state,
        state.draining() == state,
{
}

/// What stopped accepting never accepts again.
pub proof fn draining_never_reopens(state: GateState)
    requires
        state.phase != Phase::Accepting,
    ensures
        !state.admits(),
        state.entered().phase != Phase::Accepting,
        state.left().phase != Phase::Accepting,
        state.forced().phase != Phase::Accepting,
        state.draining().phase != Phase::Accepting,
{
}

/// Every operation keeps the promise of a graceful outcome: whatever was admitted has completed.
pub proof fn graceful_means_completed(state: GateState)
    requires
        state.consistent(),
    ensures
        state.entered().consistent(),
        state.left().consistent(),
        state.forced().consistent(),
        state.draining().consistent(),
{
}

/// Tells a workload whether its host has stopped. Every token of a host reads the host itself.
#[derive(Debug, Clone, Copy)]
pub struct ShutdownToken(());

/// Whether the tokens of a host are cancelled: its shutdown is terminal, or it is gone.
pub open spec fn token_cancelled(host: Option<GateState>) -> bool {
    match host {
        Some(state) => state.phase is Stopped,
        None => true,
    }
}

impl ShutdownToken {
    /// Whether this token is cancelled where its host stands so.
    pub open spec fn cancelled(self, host: Option<GateState>) -> bool {
        token_cancelled(host)
    }

    /// A token of the host that reads it.
    pub fn new() -> (token: Self)
        ensures
            forall|state: GateState| #[trigger]
                token.cancelled(Some(state)) == (state.phase is Stopped),
            token.cancelled(None),
    {
        ShutdownToken(())
    }

    /// Whether the token is cancelled; `None` stands for a host that was dropped.
    pub fn is_cancelled(&self, host: Option<&ShutdownGate>) -> (r: bool)
        ensures
            r == self.cancelled(
                match host {
                    Some(gate) => Some(gate.state()),
                    None => None,
                },
            ),
    {
        match host {
            Some(gate) => gate.is_stopped(),
            None => true,
        }
    }
}

/// A shutdown token is terminal: it is not cancelled while the host accepts or drains admitted work,
/// it is once a drain has ended either way or the host is gone, and whatever happens to the host
/// afterwards, it stays so. Every token of a host, handed out earlier or later, shows the same.
pub proof fn shutdown_tokens_are_terminal(
    token: ShutdownToken,
    other: ShutdownToken,
    state: GateState,
)
    ensures
        token.cancelled(Some(state)) == other.cancelled(Some(state)),
        token.cancelled(None) && other.cancelled(None),
        state.phase == Phase::Accepting || state.phase == Phase::Draining ==> !token.cancelled(
            Some(state),
        ),
        token.cancelled(Some(state.forced())),
        state.active == 0 ==> token.cancelled(Some(state.draining())),
        state.phase == Phase::Draining && state.active <= 1 ==> token.cancelled(Some(state.left())),
        token.cancelled(Some(state)) ==> {
            &&& token.cancelled(Some(state.entered()))
            &&& token.cancelled(Some(state.left()))
            &&& token.cancelled(Some(state.forced()))
            &&& token.cancelled(Some(state.draining()))
        },
{
}

/// A state after operations completed one after the other.
pub open spec fn after_completions(state: GateState, count: nat) -> GateState
    decreases count,
{
    if count == 0 {
        state
    } else {
        after_completions(state, (count - 1) as nat).left()
    }
}

/// An operation that was admitted and completed while operations are accepted leaves no trace.
pub proof fn completed_operations_leave_no_trace(state: GateState)
    requires
        state.phase == Phase::Accepting,
        state.active < usize::MAX,
    ensures
        state.admits(),
        state.entered().active == state.active + 1,
        state.entered().phase == Phase::Accepting,
        state.entered().left() == state,
{
}

/// A drain lasts exactly as long as admitted operations do: while one of them has not completed it
/// goes on, and with the last one it ends gracefully. A drain without any ends at once.
pub proof fn drains_last_until_the_last_completion(state: GateState, count: nat)
    requires
        state.phase == Phase::Accepting,
        count <= state.active,
    ensures
        after_completions(state.draining(), count).active == state.active - count,
        after_completions(state.draining(), count).phase == if count == state.active {
            Phase::Stopped(DrainOutcome::Graceful)
        } else {
            Phase::Draining
        },
    decreases count,
{
    if count > 0 {
        drains_last_until_the_last_completion(state, (count - 1) as nat);
    }
}

/// Forcing a shutdown that is not over ends it at once, as forced, and completes nothing; one that
/// is over stays as it ended.
pub proof fn forcing_ends_at_once(state: GateState)
    ensures
        state.forced().phase is Stopped,
        state.forced().active == state.active,
        !(state.phase is Stopped) ==> state.forced().phase == Phase::Stopped(DrainOutcome::Forced),
        state.phase is Stopped ==> state.forced().phase == state.phase,
{
}

/// A drain that ended in time is told as it ended; one that did not, or whose end was not recorded,
/// was forced.
pub proof fn late_drains_are_forced(state: GateState)
    ensures
        drain_outcome(state, false) == DrainOutcome::Forced,
        drain_outcome(state, true) == DrainOutcome::Graceful <==> state.phase == Phase::Stopped(
            DrainOutcome::Graceful,
        ),
{
}

}
