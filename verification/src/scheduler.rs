//! The renewal scheduler: one machine per certificate entry, each stepped on
//! its own, so that what happens to one entry never touches another.

use vstd::prelude::*;
use crate::lifecycle::Action;
use crate::lifecycle::EntryMachine;
use crate::lifecycle::Event;
use crate::lifecycle::LifecycleState;
use crate::lifecycle::Outcome;
use crate::lifecycle::RetryPolicy;
use crate::threshold::RenewThreshold;

verus! {

/// Work for the driver of one entry.
#[derive(Clone, Copy, Debug, PartialEq, Eq)]
pub struct Dispatch {
    /// The entry's position in the scheduler.
    pub entry: usize,
    pub outcome: Outcome,
}

/// Whether a step's outcome asks anything of the driver.
pub open spec fn wants_driver(out: Outcome) -> bool {
    out.cleanup is Some || out.action != Action::Nothing
}

/// Every machine after the same event.
pub open spec fn stepped(ms: Seq<EntryMachine>, ev: Event, now: u64, policy: RetryPolicy) -> Seq<
    EntryMachine,
> {
    Seq::new(ms.len(), |i: int| ms[i].next(ev, now, policy).0)
}

/// The work that one event to every machine gives rise to, by position.
pub open spec fn dispatches(ms: Seq<EntryMachine>, ev: Event, now: u64, policy: RetryPolicy)
    -> Seq<Dispatch>
    decreases ms.len(),
{
    if ms.len() == 0 {
        Seq::empty()
    } else {
        let earlier = dispatches(ms.drop_last(), ev, now, policy);
        let out = ms.last().next(ev, now, policy).1;
        if wants_driver(out) {
            earlier.push(Dispatch { entry: (ms.len() - 1) as usize, outcome: out })
        } else {
            earlier
        }
    }
}

/// The machines of all entries, and the policy they share.
pub struct RenewalScheduler {
    machines: Vec<EntryMachine>,
    policy: RetryPolicy,
}

impl RenewalScheduler {
    /// The machines, by entry position.
    pub closed spec fn machines(self) -> Seq<EntryMachine> {
        self.machines@
    }

    /// The retry policy.
    pub closed spec fn policy(self) -> RetryPolicy {
        self.policy
    }

    /// A scheduler without entries.
    pub fn new(policy: RetryPolicy) -> (s: RenewalScheduler)
        ensures
            s.machines() == Seq::<EntryMachine>::empty(),
            s.policy() == policy,
    {
        RenewalScheduler { machines: Vec::new(), policy: policy }
    }

    /// Adds an entry at rest and returns its position.
    pub fn add(&mut self, threshold: RenewThreshold, notify: bool) -> (at: usize)
        ensures
            at == old(self).machines().len(),
            final(self).machines() == old(self).machines().push(
                EntryMachine {
                    state: LifecycleState::Idle,
                    threshold: threshold,
                    notify: notify,
                    renew_at: None,
                    failures: 0,
                    writes: 0,
                },
            ),
            final(self).policy() == old(self).policy(),
    {
        let at = self.machines.len();
        self.machines.push(EntryMachine::new(threshold, notify));
        at
    }

    /// The number of entries.
    pub fn len(&self) -> (n: usize)
        ensures
            n == self.machines().len(),
    {
        self.machines.len()
    }

    /// A copy of one entry's machine; none where there is no such entry.
    pub fn machine(&self, entry: usize) -> (m: Option<EntryMachine>)
        ensures
            m == if entry < self.machines().len() {
                Some(self.machines()[entry as int])
            } else {
                None
            },
    {
        if entry < self.machines.len() {
            Some(self.machines[entry])
        } else {
            None
        }
    }

    /// A copy of every entry's state, by position. The copy shares nothing
    /// with the scheduler.
    pub fn snapshot(&self) -> (states: Vec<LifecycleState>)
        ensures
            states@.len() == self.machines().len(),
            forall|i: int| 0 <= i < states@.len() ==> states@[i] == self.machines()[i].state,
    {
        let mut states: Vec<LifecycleState> = Vec::new();
        let mut i: usize = 0;
        while i < self.machines.len()
            invariant
                i <= self.machines@.len(),
                states@.len() == i,
                forall|j: int| 0 <= j < i ==> states@[j] == self.machines@[j].state,
            decreases self.machines@.len() - i,
        {
            states.push(self.machines[i].state);
            i = i + 1;
        }
        states
    }

    /// Hands an event to one entry. Only that entry's machine changes; an
    /// entry that does not exist changes nothing and gives no result.
    pub fn handle(&mut self, entry: usize, ev: Event, now: u64) -> (out: Option<Outcome>)
        ensures
            final(self).policy() == old(self).policy(),
            entry < old(self).machines().len() ==> {
                let (after, o) = old(self).machines()[entry as int].next(
                    ev,
                    now,
                    old(self).policy(),
                );
                &&& out == Some(o)
                &&& final(self).machines() == old(self).machines().update(entry as int, after)
            },
            entry >= old(self).machines().len() ==> out is None && final(self).machines() == old(
                self,
            ).machines(),
    {
        if entry >= self.machines.len() {
            return None;
        }
        let mut m = self.machines[entry];
        let out = m.step(ev, now, &self.policy);
        self.machines.set(entry, m);
        Some(out)
    }

    /// Hands the same event to every entry and collects the work that
    /// results. Each machine steps as if it were alone.
    pub fn broadcast(&mut self, ev: Event, now: u64) -> (work: Vec<Dispatch>)
        ensures
            final(self).policy() == old(self).policy(),
            final(self).machines() == stepped(old(self).machines(), ev, now, old(self).policy()),
            work@ == dispatches(old(self).machines(), ev, now, old(self).policy()),
    {
        let mut work: Vec<Dispatch> = Vec::new();
        let n = self.machines.len();
        let mut i: usize = 0;
        while i < n
            invariant
                i <= n,
                n == old(self).machines@.len(),
                self.machines@.len() == n,
                self.policy == old(self).policy,
                forall|j: int|
                    0 <= j < i ==> self.machines@[j] == (#[trigger] old(self).machines@[j]).next(
                        ev,
                        now,
                        self.policy,
                    ).0,
                forall|j: int| i <= j < n ==> self.machines@[j] == old(self).machines@[j],
                work@ == dispatches(old(self).machines@.subrange(0, i as int), ev, now, self.policy),
            decreases n - i,
        {
            let mut m = self.machines[i];
            let out = m.step(ev, now, &self.policy);
            self.machines.set(i, m);
            proof {
                let done = old(self).machines@.subrange(0, i + 1);
                assert(done.drop_last() =~= old(self).machines@.subrange(0, i as int));
                assert(done.last() == old(self).machines@[i as int]);
            }
            let wanted = match out.cleanup {
                Some(_) => true,
                None => match out.action {
                    Action::Nothing => false,
                    _ => true,
                },
            };
            if wanted {
                work.push(Dispatch { entry: i, outcome: out });
            }
            i = i + 1;
        }
        proof {
            assert(old(self).machines@.subrange(0, n as int) =~= old(self).machines@);
            assert(self.machines@ =~= stepped(old(self).machines@, ev, now, self.policy));
        }
        work
    }

    /// The periodic evaluation of every entry.
    pub fn tick(&mut self, now: u64) -> (work: Vec<Dispatch>)
        ensures
            final(self).policy() == old(self).policy(),
            final(self).machines() == stepped(
                old(self).machines(),
                Event::Tick,
                now,
                old(self).policy(),
            ),
            work@ == dispatches(old(self).machines(), Event::Tick, now, old(self).policy()),
    {
        self.broadcast(Event::Tick, now)
    }

    /// A shutdown: every entry in flight comes to rest, and the work that
    /// results is the release of the challenge records held.
    pub fn stop(&mut self, now: u64) -> (work: Vec<Dispatch>)
        ensures
            final(self).policy() == old(self).policy(),
            final(self).machines() == stepped(
                old(self).machines(),
                Event::Stop,
                now,
                old(self).policy(),
            ),
            work@ == dispatches(old(self).machines(), Event::Stop, now, old(self).policy()),
    {
        self.broadcast(Event::Stop, now)
    }

    /// An operator's reload, of one entry or of all. For one entry the work
    /// is that entry's, if any; an entry that does not exist gives none.
    pub fn reload(&mut self, filter: Option<usize>, now: u64) -> (work: Vec<Dispatch>)
        ensures
            final(self).policy() == old(self).policy(),
            filter is None ==> {
                &&& final(self).machines() == stepped(
                    old(self).machines(),
                    Event::Reload,
                    now,
                    old(self).policy(),
                )
                &&& work@ == dispatches(
                    old(self).machines(),
                    Event::Reload,
                    now,
                    old(self).policy(),
                )
            },
            filter matches Some(entry) ==> if entry < old(self).machines().len() {
                let (after, o) = old(self).machines()[entry as int].next(
                    Event::Reload,
                    now,
                    old(self).policy(),
                );
                &&& final(self).machines() == old(self).machines().update(entry as int, after)
                &&& work@ == if wants_driver(o) {
                    seq![Dispatch { entry: entry, outcome: o }]
                } else {
                    Seq::empty()
                }
            } else {
                &&& final(self).machines() == old(self).machines()
                &&& work@ == Seq::<Dispatch>::empty()
            },
    {
        match filter {
            None => self.broadcast(Event::Reload, now),
            Some(entry) => {
                let mut work: Vec<Dispatch> = Vec::new();
                match self.handle(entry, Event::Reload, now) {
                    Some(out) => {
                        let wanted = match out.cleanup {
                            Some(_) => true,
                            None => match out.action {
                                Action::Nothing => false,
                                _ => true,
                            },
                        };
                        if wanted {
                            work.push(Dispatch { entry: entry, outcome: out });
                        }
                    },
                    None => {},
                }
                work
            },
        }
    }
}

/// Entries are isolated: what an event does to one entry's machine is the
/// same whatever the other entries are.
pub proof fn law_entries_isolated(
    a: Seq<EntryMachine>,
    b: Seq<EntryMachine>,
    i: int,
    ev: Event,
    now: u64,
    policy: RetryPolicy,
)
    requires
        0 <= i < a.len(),
        0 <= i < b.len(),
        a[i] == b[i],
    ensures
        stepped(a, ev, now, policy)[i] == stepped(b, ev, now, policy)[i],
{
}

/// Work is listed for existing entries only, each at most once, by rising
/// position, and for each it is what that entry's own step asks.
pub proof fn law_dispatches_by_entry(
    ms: Seq<EntryMachine>,
    ev: Event,
    now: u64,
    policy: RetryPolicy,
)
    requires
        ms.len() <= usize::MAX,
    ensures
        dispatches(ms, ev, now, policy).len() <= ms.len(),
        forall|k: int|
            0 <= k < dispatches(ms, ev, now, policy).len() ==> {
                let d = #[trigger] dispatches(ms, ev, now, policy)[k];
                &&& d.entry < ms.len()
                &&& d.outcome == ms[d.entry as int].next(ev, now, policy).1
                &&& wants_driver(d.outcome)
            },
        forall|k: int, l: int|
            0 <= k < l < dispatches(ms, ev, now, policy).len() ==> (#[trigger] dispatches(
                ms,
                ev,
                now,
                policy,
            )[k]).entry < (#[trigger] dispatches(ms, ev, now, policy)[l]).entry,
    decreases ms.len(),
{
    if ms.len() > 0 {
        let all = dispatches(ms, ev, now, policy);
        let earlier = dispatches(ms.drop_last(), ev, now, policy);
        law_dispatches_by_entry(ms.drop_last(), ev, now, policy);
        assert forall|k: int| 0 <= k < all.len() implies {
            let d = #[trigger] all[k];
            &&& d.entry < ms.len()
            &&& d.outcome == ms[d.entry as int].next(ev, now, policy).1
            &&& wants_driver(d.outcome)
        } by {
            if k < earlier.len() {
                assert(all[k] == earlier[k]);
                assert(ms.drop_last()[earlier[k].entry as int] == ms[earlier[k].entry as int]);
            }
        }
        assert forall|k: int, l: int| 0 <= k < l < all.len() implies (#[trigger] all[k]).entry < (
        #[trigger] all[l]).entry by {
            assert(all[k] == earlier[k]);
            if l < earlier.len() {
                assert(all[l] == earlier[l]);
            }
        }
    }
}

} // verus!
