//! The lifecycle of one certificate entry: a state, the events that the
//! outside world reports, and for each pair the next state and the work to do.
//!
//! The machine performs nothing itself. Whoever drives it carries out the
//! returned work and reports back what happened as the next event.

use vstd::prelude::*;
use crate::backoff::delay;
use crate::backoff::delay_spec;
use crate::threshold::RenewThreshold;

verus! {

/// How an error bears on what happens next.
#[derive(Clone, Copy, Debug, PartialEq, Eq)]
pub enum ErrorClass {
    /// Network or timing trouble: retried by itself, after a growing delay.
    Transient,
    /// The server's rate limit was reached: retried by itself, after a fixed
    /// and longer pause.
    RateLimited,
    /// The server or the setup rejects the request: nothing is retried until
    /// an operator asks for it.
    Permanent,
}

/// The part of a renewal during which something happened.
#[derive(Clone, Copy, Debug, PartialEq, Eq)]
pub enum Phase {
    PlacingOrder,
    Authorizing,
    Solving,
    Finalizing,
    Delivering,
    Notifying,
}

/// Why a renewal failed.
#[derive(Clone, Copy, Debug, PartialEq, Eq)]
pub struct Failure {
    pub class: ErrorClass,
    pub during: Phase,
}

/// Where an entry stands.
#[derive(Clone, Copy, Debug, PartialEq, Eq)]
pub enum LifecycleState {
    /// Nothing in progress.
    Idle,
    /// An order is being created.
    PlacingOrder,
    /// Authorizations are being fetched or polled.
    Authorizing,
    /// The challenge record with this reference is provisioned.
    Solving(u64),
    /// The certificate is being requested.
    Finalizing,
    /// The certificate is being written.
    Delivering,
    /// The renewal failed. It starts again by itself at the given instant;
    /// without one, only an operator's reload starts it again.
    Failed(Failure, Option<u64>),
    /// A certificate that expires at the given instant is in place.
    Succeeded(u64),
}

/// What the outside world reports to the machine.
#[derive(Clone, Copy, Debug, PartialEq, Eq)]
pub enum Event {
    /// The scheduler's periodic evaluation.
    Tick,
    /// An operator asks for a new evaluation.
    Reload,
    /// The daemon shuts down.
    Stop,
    /// The order exists.
    OrderCreated,
    /// An authorization needs solving; its challenge record has this reference.
    ChallengeOffered(u64),
    /// The server accepted the provisioned challenge.
    ChallengeSatisfied,
    /// Every authorization of the order is valid.
    AllValid,
    /// The certificate was issued.
    Issued,
    /// The certificate with this validity was written to its place.
    Written { issued_at: u64, expires_at: u64 },
    /// Writing the certificate failed.
    WriteFailed,
    /// The reload notification failed.
    NotifyFailed,
    /// The work in progress failed.
    Failed(ErrorClass),
}

/// The work to do after a step.
#[derive(Clone, Copy, Debug, PartialEq, Eq)]
pub enum Action {
    Nothing,
    CreateOrder,
    FetchAuthorizations,
    Solve(u64),
    Finalize,
    Deliver,
    Notify,
    Report(Failure),
}

/// What a step asks of its driver: first to release a challenge record, if
/// any, then to do the work.
#[derive(Clone, Copy, Debug, PartialEq, Eq)]
pub struct Outcome {
    pub cleanup: Option<u64>,
    pub action: Action,
}

/// How failures are retried.
#[derive(Clone, Copy, Debug, PartialEq, Eq)]
pub struct RetryPolicy {
    /// Delay after the first transient failure, in seconds.
    pub base: u64,
    /// Longest delay after a transient failure.
    pub cap: u64,
    /// Pause after a rate limit.
    pub cooldown: u64,
    /// How often one certificate is written before delivery counts as failed.
    pub write_attempts: u32,
}

/// One entry's machine.
#[derive(Clone, Copy, Debug, PartialEq, Eq)]
pub struct EntryMachine {
    pub state: LifecycleState,
    /// The entry's renewal threshold.
    pub threshold: RenewThreshold,
    /// Whether a reload notification follows a delivery.
    pub notify: bool,
    /// From when the certificate in place is to be renewed; none before the
    /// first delivery.
    pub renew_at: Option<u64>,
    /// Transient failures since the last delivery.
    pub failures: u32,
    /// Failed writes of the certificate being delivered.
    pub writes: u32,
}

/// Whether an exchange with the server, a challenge or a delivery is under way.
pub open spec fn in_flight(s: LifecycleState) -> bool {
    s is PlacingOrder || s is Authorizing || s is Solving || s is Finalizing || s is Delivering
}

/// Whether only an operator can get the entry going again.
pub open spec fn needs_operator(s: LifecycleState) -> bool {
    s matches LifecycleState::Failed(_, None)
}

/// The challenge record that a state holds provisioned.
pub open spec fn open_challenge(s: LifecycleState) -> Option<u64> {
    match s {
        LifecycleState::Solving(c) => Some(c),
        _ => None,
    }
}

/// The phase that an in-flight state is in.
pub open spec fn phase_of(s: LifecycleState) -> Phase {
    match s {
        LifecycleState::Authorizing => Phase::Authorizing,
        LifecycleState::Solving(_) => Phase::Solving,
        LifecycleState::Finalizing => Phase::Finalizing,
        LifecycleState::Delivering => Phase::Delivering,
        _ => Phase::PlacingOrder,
    }
}

/// `now` plus `wait`, and the end of time where that is out of range.
pub open spec fn later(now: u64, wait: nat) -> u64 {
    if now + wait > u64::MAX {
        u64::MAX
    } else {
        (now + wait) as u64
    }
}

impl RetryPolicy {
    /// What holds of a policy that makes sense: delays grow from `base` up
    /// to `cap`, the pause after a rate limit is at least the longest
    /// delay, and a certificate is written at least once.
    pub open spec fn wf(self) -> bool {
        self.base <= self.cap && self.cap <= self.cooldown && self.write_attempts >= 1
    }

    /// Makes a policy. There is none exactly when the values make no sense.
    pub fn checked(base: u64, cap: u64, cooldown: u64, write_attempts: u32) -> (p: Option<
        RetryPolicy,
    >)
        ensures
            p == if (RetryPolicy { base, cap, cooldown, write_attempts }).wf() {
                Some(RetryPolicy { base, cap, cooldown, write_attempts })
            } else {
                None
            },
    {
        if base <= cap && cap <= cooldown && write_attempts >= 1 {
            Some(RetryPolicy { base, cap, cooldown, write_attempts })
        } else {
            None
        }
    }

    /// When a renewal that failed at `now` starts again by itself, after
    /// `failures` earlier transient failures.
    pub open spec fn retry_at(self, class: ErrorClass, failures: u32, now: u64) -> Option<u64> {
        match class {
            ErrorClass::Transient => Some(
                later(now, delay_spec(self.base, self.cap, failures as nat)),
            ),
            ErrorClass::RateLimited => Some(later(now, self.cooldown as nat)),
            ErrorClass::Permanent => None,
        }
    }
}

impl EntryMachine {
    /// Whether the entry is due at `now`: it has no certificate yet, or the
    /// one in place has reached its renewal instant.
    pub open spec fn due(self, now: u64) -> bool {
        match self.renew_at {
            None => true,
            Some(t) => now >= t,
        }
    }

    /// The step that changes nothing.
    pub open spec fn stay(self) -> (EntryMachine, Outcome) {
        (self, Outcome { cleanup: None, action: Action::Nothing })
    }

    /// The step that begins a renewal.
    pub open spec fn begin(self) -> (EntryMachine, Outcome) {
        (
            EntryMachine { state: LifecycleState::PlacingOrder, writes: 0, ..self },
            Outcome { cleanup: None, action: Action::CreateOrder },
        )
    }

    /// The step from one in-flight state to the next, releasing the challenge
    /// record that the state left behind holds.
    pub open spec fn advance(self, to: LifecycleState, action: Action) -> (EntryMachine, Outcome) {
        (
            EntryMachine { state: to, ..self },
            Outcome { cleanup: open_challenge(self.state), action: action },
        )
    }

    /// The step that ends a renewal in failure.
    pub open spec fn fail(self, class: ErrorClass, now: u64, policy: RetryPolicy) -> (
        EntryMachine,
        Outcome,
    ) {
        let failure = Failure { class: class, during: phase_of(self.state) };
        let failures = if class is Transient && self.failures < u32::MAX {
            (self.failures + 1) as u32
        } else {
            self.failures
        };
        (
            EntryMachine {
                state: LifecycleState::Failed(
                    failure,
                    policy.retry_at(class, self.failures, now),
                ),
                failures: failures,
                writes: 0,
                ..self
            },
            Outcome { cleanup: open_challenge(self.state), action: Action::Report(failure) },
        )
    }

    /// The machine after `ev` at time `now`, and what its driver is to do.
    ///
    /// An entry with a certificate in place is evaluated like one at rest:
    /// once due, it goes on to a new order. An error counts only while
    /// something is in flight. An event that the state does not wait for
    /// changes nothing.
    pub open spec fn next(self, ev: Event, now: u64, policy: RetryPolicy) -> (
        EntryMachine,
        Outcome,
    ) {
        match ev {
            Event::Tick => match self.state {
                LifecycleState::Idle | LifecycleState::Succeeded(_) => if self.due(now) {
                    self.begin()
                } else {
                    self.stay()
                },
                LifecycleState::Failed(_, Some(t)) => if now >= t {
                    self.begin()
                } else {
                    self.stay()
                },
                _ => self.stay(),
            },
            Event::Reload => match self.state {
                LifecycleState::Idle | LifecycleState::Succeeded(_) => if self.due(now) {
                    self.begin()
                } else {
                    self.stay()
                },
                LifecycleState::Failed(_, _) => {
                    let fresh = EntryMachine { failures: 0, ..self };
                    if self.due(now) {
                        fresh.begin()
                    } else {
                        (
                            EntryMachine { state: LifecycleState::Idle, ..fresh },
                            Outcome { cleanup: None, action: Action::Nothing },
                        )
                    }
                },
                _ => self.stay(),
            },
            Event::Stop => if in_flight(self.state) {
                EntryMachine { writes: 0, ..self }.advance(LifecycleState::Idle, Action::Nothing)
            } else {
                self.stay()
            },
            Event::OrderCreated => match self.state {
                LifecycleState::PlacingOrder => self.advance(
                    LifecycleState::Authorizing,
                    Action::FetchAuthorizations,
                ),
                _ => self.stay(),
            },
            Event::ChallengeOffered(c) => match self.state {
                LifecycleState::Authorizing => self.advance(
                    LifecycleState::Solving(c),
                    Action::Solve(c),
                ),
                _ => self.stay(),
            },
            Event::ChallengeSatisfied => match self.state {
                LifecycleState::Solving(_) => self.advance(
                    LifecycleState::Authorizing,
                    Action::FetchAuthorizations,
                ),
                _ => self.stay(),
            },
            Event::AllValid => match self.state {
                LifecycleState::Authorizing => self.advance(
                    LifecycleState::Finalizing,
                    Action::Finalize,
                ),
                _ => self.stay(),
            },
            Event::Issued => match self.state {
                LifecycleState::Finalizing => self.advance(
                    LifecycleState::Delivering,
                    Action::Deliver,
                ),
                _ => self.stay(),
            },
            Event::Written { issued_at, expires_at } => match self.state {
                LifecycleState::Delivering => (
                    EntryMachine {
                        state: LifecycleState::Succeeded(expires_at),
                        renew_at: Some(
                            self.threshold.renew_at_spec(issued_at, expires_at) as u64,
                        ),
                        failures: 0,
                        writes: 0,
                        ..self
                    },
                    Outcome {
                        cleanup: None,
                        action: if self.notify {
                            Action::Notify
                        } else {
                            Action::Nothing
                        },
                    },
                ),
                _ => self.stay(),
            },
            Event::WriteFailed => match self.state {
                LifecycleState::Delivering => if self.writes + 1 < policy.write_attempts {
                    (
                        EntryMachine { writes: (self.writes + 1) as u32, ..self },
                        Outcome { cleanup: None, action: Action::Deliver },
                    )
                } else {
                    self.fail(ErrorClass::Transient, now, policy)
                },
                _ => self.stay(),
            },
            Event::NotifyFailed => match self.state {
                LifecycleState::Succeeded(_) => (
                    self,
                    Outcome {
                        cleanup: None,
                        action: Action::Report(
                            Failure { class: ErrorClass::Transient, during: Phase::Notifying },
                        ),
                    },
                ),
                _ => self.stay(),
            },
            Event::Failed(class) => if in_flight(self.state) {
                self.fail(class, now, policy)
            } else {
                self.stay()
            },
        }
    }

    /// A machine at rest, with no certificate yet.
    pub fn new(threshold: RenewThreshold, notify: bool) -> (m: EntryMachine)
        ensures
            m == (EntryMachine {
                state: LifecycleState::Idle,
                threshold: threshold,
                notify: notify,
                renew_at: None,
                failures: 0,
                writes: 0,
            }),
    {
        EntryMachine {
            state: LifecycleState::Idle,
            threshold: threshold,
            notify: notify,
            renew_at: None,
            failures: 0,
            writes: 0,
        }
    }

    /// Whether the entry is due at `now`.
    pub fn is_due(&self, now: u64) -> (r: bool)
        ensures
            r == self.due(now),
    {
        match self.renew_at {
            None => true,
            Some(t) => now >= t,
        }
    }

    /// Whether work for this entry is under way.
    pub fn is_in_flight(&self) -> (r: bool)
        ensures
            r == in_flight(self.state),
    {
        match self.state {
            LifecycleState::PlacingOrder
            | LifecycleState::Authorizing
            | LifecycleState::Solving(_)
            | LifecycleState::Finalizing
            | LifecycleState::Delivering => true,
            _ => false,
        }
    }

    fn held_challenge(&self) -> (r: Option<u64>)
        ensures
            r == open_challenge(self.state),
    {
        match self.state {
            LifecycleState::Solving(c) => Some(c),
            _ => None,
        }
    }

    fn phase(&self) -> (r: Phase)
        ensures
            r == phase_of(self.state),
    {
        match self.state {
            LifecycleState::Authorizing => Phase::Authorizing,
            LifecycleState::Solving(_) => Phase::Solving,
            LifecycleState::Finalizing => Phase::Finalizing,
            LifecycleState::Delivering => Phase::Delivering,
            _ => Phase::PlacingOrder,
        }
    }

    fn do_begin(&mut self) -> (out: Outcome)
        ensures
            (*final(self), out) == old(self).begin(),
    {
        self.state = LifecycleState::PlacingOrder;
        self.writes = 0;
        Outcome { cleanup: None, action: Action::CreateOrder }
    }

    fn do_advance(&mut self, to: LifecycleState, action: Action) -> (out: Outcome)
        ensures
            (*final(self), out) == old(self).advance(to, action),
    {
        let cleanup = self.held_challenge();
        self.state = to;
        Outcome { cleanup: cleanup, action: action }
    }

    fn do_fail(&mut self, class: ErrorClass, now: u64, policy: &RetryPolicy) -> (out: Outcome)
        ensures
            (*final(self), out) == old(self).fail(class, now, *policy),
    {
        let failure = Failure { class: class, during: self.phase() };
        let cleanup = self.held_challenge();
        let retry = match class {
            ErrorClass::Transient => Some(
                now.saturating_add(delay(policy.base, policy.cap, self.failures)),
            ),
            ErrorClass::RateLimited => Some(now.saturating_add(policy.cooldown)),
            ErrorClass::Permanent => None,
        };
        match class {
            ErrorClass::Transient => {
                if self.failures < u32::MAX {
                    self.failures = self.failures + 1;
                }
            },
            _ => {},
        }
        self.state = LifecycleState::Failed(failure, retry);
        self.writes = 0;
        Outcome { cleanup: cleanup, action: Action::Report(failure) }
    }

    /// Takes one step: the machine becomes what [`Self::next`] says, and the
    /// result is what the driver is to do.
    pub fn step(&mut self, ev: Event, now: u64, policy: &RetryPolicy) -> (out: Outcome)
        ensures
            (*final(self), out) == old(self).next(ev, now, *policy),
    {
        let idle = Outcome { cleanup: None, action: Action::Nothing };
        match ev {
            Event::Tick => match self.state {
                LifecycleState::Idle | LifecycleState::Succeeded(_) => {
                    if self.is_due(now) {
                        self.do_begin()
                    } else {
                        idle
                    }
                },
                LifecycleState::Failed(_, Some(t)) => {
                    if now >= t {
                        self.do_begin()
                    } else {
                        idle
                    }
                },
                _ => idle,
            },
            Event::Reload => match self.state {
                LifecycleState::Idle | LifecycleState::Succeeded(_) => {
                    if self.is_due(now) {
                        self.do_begin()
                    } else {
                        idle
                    }
                },
                LifecycleState::Failed(_, _) => {
                    self.failures = 0;
                    if self.is_due(now) {
                        self.do_begin()
                    } else {
                        self.state = LifecycleState::Idle;
                        idle
                    }
                },
                _ => idle,
            },
            Event::Stop => {
                if self.is_in_flight() {
                    self.writes = 0;
                    self.do_advance(LifecycleState::Idle, Action::Nothing)
                } else {
                    idle
                }
            },
            Event::OrderCreated => match self.state {
                LifecycleState::PlacingOrder => self.do_advance(
                    LifecycleState::Authorizing,
                    Action::FetchAuthorizations,
                ),
                _ => idle,
            },
            Event::ChallengeOffered(c) => match self.state {
                LifecycleState::Authorizing => self.do_advance(
                    LifecycleState::Solving(c),
                    Action::Solve(c),
                ),
                _ => idle,
            },
            Event::ChallengeSatisfied => match self.state {
                LifecycleState::Solving(_) => self.do_advance(
                    LifecycleState::Authorizing,
                    Action::FetchAuthorizations,
                ),
                _ => idle,
            },
            Event::AllValid => match self.state {
                LifecycleState::Authorizing => self.do_advance(
                    LifecycleState::Finalizing,
                    Action::Finalize,
                ),
                _ => idle,
            },
            Event::Issued => match self.state {
                LifecycleState::Finalizing => self.do_advance(
                    LifecycleState::Delivering,
                    Action::Deliver,
                ),
                _ => idle,
            },
            Event::Written { issued_at, expires_at } => match self.state {
                LifecycleState::Delivering => {
                    let at = self.threshold.renew_at(issued_at, expires_at);
                    self.state = LifecycleState::Succeeded(expires_at);
                    self.renew_at = Some(at);
                    self.failures = 0;
                    self.writes = 0;
                    Outcome {
                        cleanup: None,
                        action: if self.notify {
                            Action::Notify
                        } else {
                            Action::Nothing
                        },
                    }
                },
                _ => idle,
            },
            Event::WriteFailed => match self.state {
                LifecycleState::Delivering => {
                    if self.writes < u32::MAX && self.writes + 1 < policy.write_attempts {
                        self.writes = self.writes + 1;
                        Outcome { cleanup: None, action: Action::Deliver }
                    } else {
                        self.do_fail(ErrorClass::Transient, now, policy)
                    }
                },
                _ => idle,
            },
            Event::NotifyFailed => match self.state {
                LifecycleState::Succeeded(_) => Outcome {
                    cleanup: None,
                    action: Action::Report(
                        Failure { class: ErrorClass::Transient, during: Phase::Notifying },
                    ),
                },
                _ => idle,
            },
            Event::Failed(class) => {
                if self.is_in_flight() {
                    self.do_fail(class, now, policy)
                } else {
                    idle
                }
            },
        }
    }
}

/// Whether two error classes are the same.
pub fn same_class(a: ErrorClass, b: ErrorClass) -> (r: bool)
    ensures
        r == (a == b),
{
    match (a, b) {
        (ErrorClass::Transient, ErrorClass::Transient) => true,
        (ErrorClass::RateLimited, ErrorClass::RateLimited) => true,
        (ErrorClass::Permanent, ErrorClass::Permanent) => true,
        _ => false,
    }
}

/// Whether two phases are the same.
pub fn same_phase(a: Phase, b: Phase) -> (r: bool)
    ensures
        r == (a == b),
{
    match (a, b) {
        (Phase::PlacingOrder, Phase::PlacingOrder) => true,
        (Phase::Authorizing, Phase::Authorizing) => true,
        (Phase::Solving, Phase::Solving) => true,
        (Phase::Finalizing, Phase::Finalizing) => true,
        (Phase::Delivering, Phase::Delivering) => true,
        (Phase::Notifying, Phase::Notifying) => true,
        _ => false,
    }
}

/// Whether two states are the same.
pub fn same_state(a: LifecycleState, b: LifecycleState) -> (r: bool)
    ensures
        r == (a == b),
{
    match (a, b) {
        (LifecycleState::Idle, LifecycleState::Idle) => true,
        (LifecycleState::PlacingOrder, LifecycleState::PlacingOrder) => true,
        (LifecycleState::Authorizing, LifecycleState::Authorizing) => true,
        (LifecycleState::Solving(x), LifecycleState::Solving(y)) => x == y,
        (LifecycleState::Finalizing, LifecycleState::Finalizing) => true,
        (LifecycleState::Delivering, LifecycleState::Delivering) => true,
        (LifecycleState::Failed(f, x), LifecycleState::Failed(g, y)) => {
            let same_retry = match (x, y) {
                (Some(s), Some(t)) => s == t,
                (None, None) => true,
                _ => false,
            };
            same_class(f.class, g.class) && same_phase(f.during, g.during) && same_retry
        },
        (LifecycleState::Succeeded(x), LifecycleState::Succeeded(y)) => x == y,
        _ => false,
    }
}

} // verus!
