use vstd::prelude::*;

verus! {

/// The operational states of the daemon.
///
/// `Init` is the initial state, `Shutdown` is terminal. `Freeze` is the
/// security trap entered on a master-key identity mismatch; `Warn` is the
/// recoverable degraded state entered on metadata inconsistency.
#[derive(Clone, Copy, Debug, PartialEq, Eq, Structural)]
pub enum State {
    Init,
    WaitKey,
    Normal,
    Warn,
    Freeze,
    PendingOnly,
    Shutdown,
}

/// The daemon state machine. Its current state changes only through
/// `transition_to`, which admits exactly the edges of
/// `SystemState::spec_can_transition`.
pub struct SystemState {
    current: State,
}

impl View for SystemState {
    type V = State;

    closed spec fn view(&self) -> State {
        self.current
    }
}

impl SystemState {
    /// The transition table: `spec_can_transition(from, to)` holds exactly
    /// for the legal edges of the state graph. `Freeze -> Normal` is listed
    /// but reserved for explicit administrator action; the boot driver
    /// never takes it.
    pub open spec fn spec_can_transition(from: State, to: State) -> bool {
        match (from, to) {
            (State::Init, State::WaitKey) => true,
            (State::Init, State::Freeze) => true,
            (State::WaitKey, State::Normal) => true,
            (State::WaitKey, State::Freeze) => true,
            (State::Normal, State::Warn) => true,
            (State::Normal, State::Freeze) => true,
            (State::Normal, State::PendingOnly) => true,
            (State::Normal, State::Shutdown) => true,
            (State::Warn, State::Normal) => true,
            (State::Warn, State::Freeze) => true,
            (State::Freeze, State::Normal) => true,
            (State::Freeze, State::Shutdown) => true,
            (State::PendingOnly, State::Normal) => true,
            (State::PendingOnly, State::Freeze) => true,
            _ => false,
        }
    }

    /// A fresh state machine starts in `Init`.
    pub fn new() -> (s: Self)
        ensures
            s@ == State::Init,
    {
        SystemState { current: State::Init }
    }

    /// The current state.
    pub fn current(&self) -> (s: State)
        ensures
            s == self@,
    {
        self.current
    }

    /// Whether the edge from the current state to `next` is legal.
    pub fn can_transition(&self, next: State) -> (b: bool)
        ensures
            b == Self::spec_can_transition(self@, next),
    {
        match (self.current, next) {
            (State::Init, State::WaitKey) => true,
            (State::Init, State::Freeze) => true,
            (State::WaitKey, State::Normal) => true,
            (State::WaitKey, State::Freeze) => true,
            (State::Normal, State::Warn) => true,
            (State::Normal, State::Freeze) => true,
            (State::Normal, State::PendingOnly) => true,
            (State::Normal, State::Shutdown) => true,
            (State::Warn, State::Normal) => true,
            (State::Warn, State::Freeze) => true,
            (State::Freeze, State::Normal) => true,
            (State::Freeze, State::Shutdown) => true,
            (State::PendingOnly, State::Normal) => true,
            (State::PendingOnly, State::Freeze) => true,
            _ => false,
        }
    }

    /// Attempt to transition to `next`. The attempt succeeds exactly when
    /// the edge is in the transition table; on failure the current state
    /// is unchanged.
    pub fn transition_to(&mut self, next: State) -> (ok: bool)
        ensures
            ok == Self::spec_can_transition(old(self)@, next),
            ok ==> final(self)@ == next,
            !ok ==> final(self)@ == old(self)@,
    {
        if !self.can_transition(next) {
            return false;
        }
        self.current = next;
        true
    }
}

} // verus!
