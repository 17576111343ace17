//! The state of a running daemon: a machine for every entry that was
//! accepted, the entries' names by position, and the record of control
//! events. It starts from a loaded configuration, serves the requests of
//! the control channel, and records every step that goes through it.

use vstd::prelude::*;
use crate::config::ConfigError;
use crate::config::Slot;
use crate::control::ControlRequest;
use crate::control::find_entry;
use crate::control::position_of;
use crate::control::Response;
use crate::control::source_of;
use crate::events::ControlEvent;
use crate::events::EventLog;
use crate::events::Notice;
use crate::events::recorded;
use crate::events::recorded_all;
use crate::events::selected;
use crate::events::Source;
use crate::lifecycle::Action;
use crate::lifecycle::EntryMachine;
use crate::lifecycle::Event;
use crate::lifecycle::LifecycleState;
use crate::lifecycle::Outcome;
use crate::lifecycle::RetryPolicy;
use crate::lifecycle::same_state;
use crate::scheduler::Dispatch;
use crate::scheduler::dispatches;
use crate::scheduler::RenewalScheduler;
use crate::scheduler::stepped;
use crate::scheduler::wants_driver;
use crate::threshold::RenewThreshold;

verus! {

/// What the scheduler needs to know of an entry.
pub struct Planned {
    pub name: String,
    pub threshold: RenewThreshold,
    /// Whether the entry has a reload mechanism.
    pub notify: bool,
}

/// The entries that were accepted, in the configuration's order.
pub open spec fn planned(slots: Seq<Slot>) -> Seq<Planned>
    decreases slots.len(),
{
    if slots.len() == 0 {
        Seq::empty()
    } else {
        let earlier = planned(slots.drop_last());
        match slots.last() {
            Slot::Enabled(e) => earlier.push(
                Planned { name: e.name, threshold: e.threshold, notify: e.reload_type is Some },
            ),
            Slot::Disabled(_, _) => earlier,
        }
    }
}

/// The reasons for which outputs were left out, in the configuration's order.
pub open spec fn refusals(slots: Seq<Slot>) -> Seq<ConfigError>
    decreases slots.len(),
{
    if slots.len() == 0 {
        Seq::empty()
    } else {
        let earlier = refusals(slots.drop_last());
        match slots.last() {
            Slot::Enabled(_) => earlier,
            Slot::Disabled(_, reason) => earlier.push(reason),
        }
    }
}

/// The machine with which an entry starts: at rest, without a certificate.
pub open spec fn first_machine(p: Planned) -> EntryMachine {
    EntryMachine {
        state: LifecycleState::Idle,
        threshold: p.threshold,
        notify: p.notify,
        renew_at: None,
        failures: 0,
        writes: 0,
    }
}

/// Makes the scheduler for the entries that were accepted, and lists their
/// names by position. An output that was left out gets no machine.
pub fn plan_entries(slots: &Vec<Slot>, policy: RetryPolicy) -> (r: (RenewalScheduler, Vec<String>))
    ensures
        r.0.policy() == policy,
        r.0.machines().len() == planned(slots@).len(),
        r.1@.len() == planned(slots@).len(),
        forall|i: int|
            0 <= i < planned(slots@).len() ==> {
                &&& r.0.machines()[i] == first_machine(#[trigger] planned(slots@)[i])
                &&& r.1@[i] == planned(slots@)[i].name
            },
{
    let mut scheduler = RenewalScheduler::new(policy);
    let mut names: Vec<String> = Vec::new();
    let mut i: usize = 0;
    while i < slots.len()
        invariant
            i <= slots@.len(),
            scheduler.policy() == policy,
            scheduler.machines().len() == planned(slots@.take(i as int)).len(),
            names@.len() == planned(slots@.take(i as int)).len(),
            forall|j: int|
                0 <= j < planned(slots@.take(i as int)).len() ==> {
                    &&& scheduler.machines()[j] == first_machine(
                        #[trigger] planned(slots@.take(i as int))[j],
                    )
                    &&& names@[j] == planned(slots@.take(i as int))[j].name
                },
        decreases slots@.len() - i,
    {
        proof {
            assert(slots@.take(i + 1).drop_last() =~= slots@.take(i as int));
        }
        match &slots[i] {
            Slot::Enabled(entry) => {
                scheduler.add(entry.threshold, entry.reload_type.is_some());
                names.push(entry.name.clone());
            },
            Slot::Disabled(_, _) => {},
        }
        i = i + 1;
    }
    proof {
        assert(slots@.take(slots@.len() as int) =~= slots@);
    }
    (scheduler, names)
}

/// The notices for the outputs that were left out: the reason of each.
pub open spec fn refusal_notices(slots: Seq<Slot>) -> Seq<Notice> {
    Seq::new(refusals(slots).len(), |i: int| Notice::Disabled(refusals(slots)[i]))
}

/// Records, for every output that was left out, the reason as a control
/// event about the daemon, so that it shows in the log.
pub fn note_refusals(slots: &Vec<Slot>, log: &mut EventLog, at: u64)
    requires
        old(log).wf(),
    ensures
        final(log).wf(),
        final(log).capacity() == old(log).capacity(),
        (final(log).events(), final(log).next_id()) == recorded_all(
            old(log).events(),
            old(log).capacity(),
            old(log).next_id(),
            at,
            Source::Daemon,
            refusal_notices(slots@),
        ),
{
    let mut notices: Vec<Notice> = Vec::new();
    let mut i: usize = 0;
    while i < slots.len()
        invariant
            i <= slots@.len(),
            notices@ == refusal_notices(slots@.take(i as int)),
        decreases slots@.len() - i,
    {
        proof {
            assert(slots@.take(i + 1).drop_last() =~= slots@.take(i as int));
        }
        match &slots[i] {
            Slot::Enabled(_) => {},
            Slot::Disabled(_, reason) => {
                notices.push(Notice::Disabled(*reason));
            },
        }
        proof {
            assert(notices@ =~= refusal_notices(slots@.take(i + 1)));
        }
        i = i + 1;
    }
    proof {
        assert(slots@.take(slots@.len() as int) =~= slots@);
    }
    log.record_all(at, Source::Daemon, &notices);
}

/// What a step leaves in the log: the new state, where the state changed,
/// and the failure, where the step reports one.
pub open spec fn step_notices(before: LifecycleState, after: LifecycleState, action: Action)
    -> Seq<Notice> {
    let state = if after != before {
        seq![Notice::State(after)]
    } else {
        Seq::empty()
    };
    let failure = match action {
        Action::Report(f) => seq![Notice::Failure(f)],
        _ => Seq::empty(),
    };
    state + failure
}

/// The record and the next event number after the step of one entry.
pub open spec fn log_after_step(
    m: EntryMachine,
    entry: usize,
    ev: Event,
    now: u64,
    policy: RetryPolicy,
    log: (Seq<ControlEvent>, u64),
    capacity: nat,
) -> (Seq<ControlEvent>, u64) {
    let (after, out) = m.next(ev, now, policy);
    recorded_all(
        log.0,
        capacity,
        log.1,
        now,
        Source::Entry(entry),
        step_notices(m.state, after.state, out.action),
    )
}

/// The record and the next event number after every entry took the same
/// step, by position.
pub open spec fn log_after_all(
    ms: Seq<EntryMachine>,
    ev: Event,
    now: u64,
    policy: RetryPolicy,
    log: (Seq<ControlEvent>, u64),
    capacity: nat,
) -> (Seq<ControlEvent>, u64)
    decreases ms.len(),
{
    if ms.len() == 0 {
        log
    } else {
        log_after_step(
            ms.last(),
            (ms.len() - 1) as usize,
            ev,
            now,
            policy,
            log_after_all(ms.drop_last(), ev, now, policy, log, capacity),
            capacity,
        )
    }
}

/// The state of a running daemon: the entries' names and machines, by
/// position, and the record of control events. Every step that goes
/// through the daemon shows in the record.
pub struct Daemon {
    names: Vec<String>,
    scheduler: RenewalScheduler,
    log: EventLog,
}

impl Daemon {
    /// The entries' names, by position.
    pub closed spec fn names(self) -> Seq<String> {
        self.names@
    }

    /// The entries' machines, by position.
    pub closed spec fn machines(self) -> Seq<EntryMachine> {
        self.scheduler.machines()
    }

    /// The retry policy.
    pub closed spec fn policy(self) -> RetryPolicy {
        self.scheduler.policy()
    }

    /// The record of control events, and the number of the next event.
    pub closed spec fn log(self) -> (Seq<ControlEvent>, u64) {
        (self.log.events(), self.log.next_id())
    }

    /// How many events of one source the record keeps.
    pub closed spec fn capacity(self) -> nat {
        self.log.capacity()
    }

    /// What holds of every daemon: each entry has a name and a machine, and
    /// the record is in order.
    pub closed spec fn wf(self) -> bool {
        self.log.wf() && self.names@.len() == self.scheduler.machines().len()
    }

    /// The daemon for a loaded configuration: the accepted entries at
    /// rest, and in the record the reason for each output left out.
    pub fn start(slots: &Vec<Slot>, policy: RetryPolicy, capacity: usize, at: u64) -> (d: Daemon)
        ensures
            d.wf(),
            d.policy() == policy,
            d.capacity() == capacity,
            d.machines().len() == planned(slots@).len(),
            d.names().len() == planned(slots@).len(),
            forall|i: int|
                0 <= i < planned(slots@).len() ==> {
                    &&& d.machines()[i] == first_machine(#[trigger] planned(slots@)[i])
                    &&& d.names()[i] == planned(slots@)[i].name
                },
            d.log() == recorded_all(
                Seq::empty(),
                capacity as nat,
                0,
                at,
                Source::Daemon,
                refusal_notices(slots@),
            ),
    {
        let (scheduler, names) = plan_entries(slots, policy);
        let mut log = EventLog::new(capacity);
        note_refusals(slots, &mut log, at);
        Daemon { names: names, scheduler: scheduler, log: log }
    }

    /// The number of entries.
    pub fn len(&self) -> (n: usize)
        ensures
            n == self.machines().len(),
    {
        self.scheduler.len()
    }

    /// The name of one entry; none where there is no such entry.
    pub fn name(&self, entry: usize) -> (n: Option<&String>)
        ensures
            n == if entry < self.names().len() {
                Some(&self.names()[entry as int])
            } else {
                None
            },
    {
        if entry < self.names.len() {
            Some(&self.names[entry])
        } else {
            None
        }
    }

    /// A copy of one entry's machine; none where there is no such entry.
    pub fn machine(&self, entry: usize) -> (m: Option<EntryMachine>)
        ensures
            m == if entry < self.machines().len() {
                Some(self.machines()[entry as int])
            } else {
                None
            },
    {
        self.scheduler.machine(entry)
    }

    /// A copy of every entry's state, by position.
    pub fn snapshot(&self) -> (states: Vec<LifecycleState>)
        ensures
            states@.len() == self.machines().len(),
            forall|i: int| 0 <= i < states@.len() ==> states@[i] == self.machines()[i].state,
    {
        self.scheduler.snapshot()
    }

    /// The events that a query selects, oldest first.
    pub fn events(&self, source: Option<Source>, since: Option<u64>) -> (found: Vec<ControlEvent>)
        ensures
            found@ == self.log().0.filter(|e: ControlEvent| selected(e, source, since)),
    {
        self.log.query(source, since)
    }

    /// Hands an event to one entry and records what the step did. Only
    /// that entry's machine changes. An entry that does not exist changes
    /// nothing.
    pub fn report(&mut self, entry: usize, ev: Event, now: u64) -> (out: Option<Outcome>)
        requires
            old(self).wf(),
        ensures
            final(self).wf(),
            final(self).names() == old(self).names(),
            final(self).policy() == old(self).policy(),
            final(self).capacity() == old(self).capacity(),
            entry < old(self).machines().len() ==> {
                let before = old(self).machines()[entry as int];
                let (after, o) = before.next(ev, now, old(self).policy());
                &&& out == Some(o)
                &&& final(self).machines() == old(self).machines().update(entry as int, after)
                &&& final(self).log() == log_after_step(
                    before,
                    entry,
                    ev,
                    now,
                    old(self).policy(),
                    old(self).log(),
                    old(self).capacity(),
                )
            },
            entry >= old(self).machines().len() ==> {
                &&& out is None
                &&& final(self).machines() == old(self).machines()
                &&& final(self).log() == old(self).log()
            },
    {
        let before = match self.scheduler.machine(entry) {
            Some(m) => m,
            None => {
                return None;
            },
        };
        let out = match self.scheduler.handle(entry, ev, now) {
            Some(o) => o,
            None => {
                return None;
            },
        };
        let after = match self.scheduler.machine(entry) {
            Some(m) => m,
            None => {
                return None;
            },
        };
        let mut notices: Vec<Notice> = Vec::new();
        if !same_state(after.state, before.state) {
            notices.push(Notice::State(after.state));
        }
        match out.action {
            Action::Report(f) => {
                notices.push(Notice::Failure(f));
            },
            _ => {},
        }
        proof {
            assert(notices@ =~= step_notices(before.state, after.state, out.action));
        }
        self.log.record_all(now, Source::Entry(entry), &notices);
        Some(out)
    }

    /// Hands the same event to every entry, records what each step did, and
    /// collects the work that results.
    pub fn broadcast(&mut self, ev: Event, now: u64) -> (work: Vec<Dispatch>)
        requires
            old(self).wf(),
        ensures
            final(self).wf(),
            final(self).names() == old(self).names(),
            final(self).policy() == old(self).policy(),
            final(self).capacity() == old(self).capacity(),
            final(self).machines() == stepped(old(self).machines(), ev, now, old(self).policy()),
            work@ == dispatches(old(self).machines(), ev, now, old(self).policy()),
            final(self).log() == log_after_all(
                old(self).machines(),
                ev,
                now,
                old(self).policy(),
                old(self).log(),
                old(self).capacity(),
            ),
    {
        let mut work: Vec<Dispatch> = Vec::new();
        let n = self.scheduler.len();
        let mut i: usize = 0;
        proof {
            assert(old(self).machines().take(0) =~= Seq::<EntryMachine>::empty());
        }
        while i < n
            invariant
                i <= n,
                n == old(self).machines().len(),
                self.wf(),
                self.names() == old(self).names(),
                self.policy() == old(self).policy(),
                self.capacity() == old(self).capacity(),
                self.machines().len() == n,
                forall|j: int|
                    0 <= j < i ==> self.machines()[j] == (#[trigger] old(self).machines()[j]).next(
                        ev,
                        now,
                        self.policy(),
                    ).0,
                forall|j: int| i <= j < n ==> self.machines()[j] == old(self).machines()[j],
                work@ == dispatches(old(self).machines().take(i as int), ev, now, self.policy()),
                self.log() == log_after_all(
                    old(self).machines().take(i as int),
                    ev,
                    now,
                    self.policy(),
                    old(self).log(),
                    self.capacity(),
                ),
            decreases n - i,
        {
            proof {
                let done = old(self).machines().take(i + 1);
                assert(done.drop_last() =~= old(self).machines().take(i as int));
                assert(done.last() == old(self).machines()[i as int]);
            }
            match self.report(i, ev, now) {
                Some(out) => {
                    let wanted = match out.cleanup {
                        Some(_) => true,
                        None => match out.action {
                            Action::Nothing => false,
                            _ => true,
                        },
                    };
                    if wanted {
                        work.push(Dispatch { entry: i, outcome: out });
                    }
                },
                None => {},
            }
            i = i + 1;
        }
        proof {
            assert(old(self).machines().take(n as int) =~= old(self).machines());
            assert(self.machines() =~= stepped(old(self).machines(), ev, now, self.policy()));
        }
        work
    }

    /// The periodic evaluation of every entry.
    pub fn tick(&mut self, now: u64) -> (work: Vec<Dispatch>)
        requires
            old(self).wf(),
        ensures
            final(self).wf(),
            final(self).names() == old(self).names(),
            final(self).policy() == old(self).policy(),
            final(self).capacity() == old(self).capacity(),
            final(self).machines() == stepped(
                old(self).machines(),
                Event::Tick,
                now,
                old(self).policy(),
            ),
            work@ == dispatches(old(self).machines(), Event::Tick, now, old(self).policy()),
            final(self).log() == log_after_all(
                old(self).machines(),
                Event::Tick,
                now,
                old(self).policy(),
                old(self).log(),
                old(self).capacity(),
            ),
    {
        self.broadcast(Event::Tick, now)
    }

    /// Serves one request of the control channel.
    ///
    /// A stop and a reload are recorded as events about the daemon before
    /// anything else happens. A stop then steps every entry with
    /// [`Event::Stop`], a reload the entry named, or all, with
    /// [`Event::Reload`], and each step is recorded. A log request reads
    /// the record. A request that names an unknown entry changes nothing.
    pub fn serve(&mut self, request: &ControlRequest, now: u64) -> (response: Response)
        requires
            old(self).wf(),
        ensures
            final(self).wf(),
            final(self).names() == old(self).names(),
            final(self).policy() == old(self).policy(),
            final(self).capacity() == old(self).capacity(),
            match *request {
                ControlRequest::Stop => {
                    let noted = recorded(
                        old(self).log().0,
                        old(self).capacity(),
                        old(self).log().1,
                        now,
                        Source::Daemon,
                        Notice::StopRequested,
                    );
                    &&& response matches Response::Stopping(work)
                    &&& work@ == dispatches(
                        old(self).machines(),
                        Event::Stop,
                        now,
                        old(self).policy(),
                    )
                    &&& final(self).machines() == stepped(
                        old(self).machines(),
                        Event::Stop,
                        now,
                        old(self).policy(),
                    )
                    &&& final(self).log() == log_after_all(
                        old(self).machines(),
                        Event::Stop,
                        now,
                        old(self).policy(),
                        noted,
                        old(self).capacity(),
                    )
                },
                ControlRequest::Reload(None) => {
                    let noted = recorded(
                        old(self).log().0,
                        old(self).capacity(),
                        old(self).log().1,
                        now,
                        Source::Daemon,
                        Notice::ReloadRequested,
                    );
                    &&& response matches Response::Reloaded(work)
                    &&& work@ == dispatches(
                        old(self).machines(),
                        Event::Reload,
                        now,
                        old(self).policy(),
                    )
                    &&& final(self).machines() == stepped(
                        old(self).machines(),
                        Event::Reload,
                        now,
                        old(self).policy(),
                    )
                    &&& final(self).log() == log_after_all(
                        old(self).machines(),
                        Event::Reload,
                        now,
                        old(self).policy(),
                        noted,
                        old(self).capacity(),
                    )
                },
                ControlRequest::Reload(Some(name)) => match position_of(
                    old(self).names(),
                    name@,
                ) {
                    Some(at) => {
                        let noted = recorded(
                            old(self).log().0,
                            old(self).capacity(),
                            old(self).log().1,
                            now,
                            Source::Daemon,
                            Notice::ReloadRequested,
                        );
                        let before = old(self).machines()[at as int];
                        let (after, o) = before.next(Event::Reload, now, old(self).policy());
                        &&& response matches Response::Reloaded(work)
                        &&& work@ == if wants_driver(o) {
                            seq![Dispatch { entry: at, outcome: o }]
                        } else {
                            Seq::empty()
                        }
                        &&& final(self).machines() == old(self).machines().update(at as int, after)
                        &&& final(self).log() == log_after_step(
                            before,
                            at,
                            Event::Reload,
                            now,
                            old(self).policy(),
                            noted,
                            old(self).capacity(),
                        )
                    },
                    None => {
                        &&& response is UnknownEntry
                        &&& final(self).machines() == old(self).machines()
                        &&& final(self).log() == old(self).log()
                    },
                },
                ControlRequest::Log(name, since) => {
                    &&& final(self).machines() == old(self).machines()
                    &&& final(self).log() == old(self).log()
                    &&& match source_of(old(self).names(), name) {
                        Some(source) => {
                            &&& response matches Response::Events(found)
                            &&& found@ == old(self).log().0.filter(
                                |e: ControlEvent| selected(e, source, since),
                            )
                        },
                        None => response is UnknownEntry,
                    }
                },
            },
    {
        match request {
            ControlRequest::Stop => {
                self.log.record(now, Source::Daemon, Notice::StopRequested);
                Response::Stopping(self.broadcast(Event::Stop, now))
            },
            ControlRequest::Reload(None) => {
                self.log.record(now, Source::Daemon, Notice::ReloadRequested);
                Response::Reloaded(self.broadcast(Event::Reload, now))
            },
            ControlRequest::Reload(Some(name)) => match find_entry(&self.names, name.as_str()) {
                Some(at) => {
                    self.log.record(now, Source::Daemon, Notice::ReloadRequested);
                    let mut work: Vec<Dispatch> = Vec::new();
                    match self.report(at, Event::Reload, now) {
                        Some(out) => {
                            let wanted = match out.cleanup {
                                Some(_) => true,
                                None => match out.action {
                                    Action::Nothing => false,
                                    _ => true,
                                },
                            };
                            if wanted {
                                work.push(Dispatch { entry: at, outcome: out });
                            }
                        },
                        None => {},
                    }
                    Response::Reloaded(work)
                },
                None => Response::UnknownEntry,
            },
            ControlRequest::Log(name, since) => {
                let source = match name {
                    None => None,
                    Some(n) => match find_entry(&self.names, n.as_str()) {
                        Some(at) => Some(Source::Entry(at)),
                        None => {
                            return Response::UnknownEntry;
                        },
                    },
                };
                Response::Events(self.log.query(source, *since))
            },
        }
    }
}

/// No failure is swallowed: a step that reports a failure leaves it in the
/// record, as the last event, unless the event numbers are used up.
pub proof fn law_failures_are_recorded(
    m: EntryMachine,
    entry: usize,
    ev: Event,
    now: u64,
    policy: RetryPolicy,
    log: (Seq<ControlEvent>, u64),
    capacity: nat,
)
    requires
        m.next(ev, now, policy).1.action is Report,
        capacity > 0,
        log.1 < u64::MAX - 1,
    ensures
        ({
            let after = log_after_step(m, entry, ev, now, policy, log, capacity);
            &&& after.0.len() > 0
            &&& after.0.last().source == Source::Entry(entry)
            &&& after.0.last().at == now
            &&& Action::Report(after.0.last().notice->Failure_0) == m.next(ev, now, policy).1.action
            &&& after.0.last().notice is Failure
        }),
{
    let (next, out) = m.next(ev, now, policy);
    let notices = step_notices(m.state, next.state, out.action);
    let earlier = recorded_all(log.0, capacity, log.1, now, Source::Entry(entry), notices.drop_last());
    reveal_with_fuel(recorded_all, 3);
    if next.state != m.state {
        assert(notices.drop_last() =~= seq![Notice::State(next.state)]);
        assert(notices.drop_last().drop_last() =~= Seq::<Notice>::empty());
    } else {
        assert(notices.drop_last() =~= Seq::<Notice>::empty());
    }
}

} // verus!
