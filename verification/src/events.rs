//! The control events of a running daemon: an append-only record, bounded
//! for each source by itself.

use vstd::prelude::*;
use crate::config::ConfigError;
use crate::lifecycle::Failure;
use crate::lifecycle::LifecycleState;

verus! {

/// Whom an event is about.
#[derive(Clone, Copy, Debug, PartialEq, Eq)]
pub enum Source {
    /// The daemon as a whole.
    Daemon,
    /// The entry at this position.
    Entry(usize),
}

/// What an event says.
#[derive(Clone, Copy, Debug, PartialEq, Eq)]
pub enum Notice {
    /// The entry is now in this state.
    State(LifecycleState),
    /// Something failed.
    Failure(Failure),
    /// The entry was left out when the configuration was loaded.
    Disabled(ConfigError),
    /// An operator asked for a reload.
    ReloadRequested,
    /// An operator asked the daemon to stop.
    StopRequested,
}

/// One recorded event.
#[derive(Clone, Copy, Debug, PartialEq, Eq)]
pub struct ControlEvent {
    /// The event's number: later events have greater numbers.
    pub id: u64,
    /// When it happened.
    pub at: u64,
    pub source: Source,
    pub notice: Notice,
}

/// The events of `source` among `events`.
pub open spec fn of_source(events: Seq<ControlEvent>, source: Source) -> Seq<ControlEvent> {
    events.filter(|e: ControlEvent| e.source == source)
}

/// The position of the oldest event of `source`; the length where there is
/// none.
pub open spec fn oldest_of(events: Seq<ControlEvent>, source: Source) -> int
    decreases events.len(),
{
    if events.len() == 0 {
        0
    } else if events[0].source == source {
        0
    } else {
        1 + oldest_of(events.drop_first(), source)
    }
}

/// The record after one more event: the event goes to the end, and where
/// its source already has `capacity` events, the oldest of them leaves. A
/// record of capacity zero stays empty.
pub open spec fn appended(events: Seq<ControlEvent>, capacity: nat, e: ControlEvent) -> Seq<
    ControlEvent,
> {
    if capacity == 0 {
        events
    } else if of_source(events, e.source).len() >= capacity {
        events.remove(oldest_of(events, e.source)).push(e)
    } else {
        events.push(e)
    }
}

/// The record and the next event number after one more event is recorded.
/// Once the event numbers are used up nothing is recorded any more.
pub open spec fn recorded(
    events: Seq<ControlEvent>,
    capacity: nat,
    next_id: u64,
    at: u64,
    source: Source,
    notice: Notice,
) -> (Seq<ControlEvent>, u64) {
    if next_id == u64::MAX {
        (events, next_id)
    } else {
        (
            appended(
                events,
                capacity,
                ControlEvent { id: next_id, at: at, source: source, notice: notice },
            ),
            (next_id + 1) as u64,
        )
    }
}

/// The record and the next event number after a run of notices is
/// recorded, in order, all at one time and from one source.
pub open spec fn recorded_all(
    events: Seq<ControlEvent>,
    capacity: nat,
    next_id: u64,
    at: u64,
    source: Source,
    notices: Seq<Notice>,
) -> (Seq<ControlEvent>, u64)
    decreases notices.len(),
{
    if notices.len() == 0 {
        (events, next_id)
    } else {
        let (earlier, id) = recorded_all(events, capacity, next_id, at, source, notices.drop_last());
        recorded(earlier, capacity, id, at, source, notices.last())
    }
}

/// Whether a query selects an event: of the source asked for, if any, and
/// later than the event number given, if any.
pub open spec fn selected(e: ControlEvent, source: Option<Source>, since: Option<u64>) -> bool {
    &&& source matches Some(s) ==> e.source == s
    &&& since matches Some(id) ==> e.id > id
}

/// The record of control events.
pub struct EventLog {
    capacity: usize,
    next_id: u64,
    events: Vec<ControlEvent>,
}

impl EventLog {
    /// The events held, oldest first.
    pub closed spec fn events(self) -> Seq<ControlEvent> {
        self.events@
    }

    /// How many events of one source are kept.
    pub closed spec fn capacity(self) -> nat {
        self.capacity as nat
    }

    /// The number that the next event gets.
    pub closed spec fn next_id(self) -> u64 {
        self.next_id
    }

    /// What holds of every record: event numbers rise and lie below the
    /// next number, and no source has more events than the capacity.
    pub open spec fn wf(self) -> bool {
        &&& forall|i: int, j: int|
            0 <= i < j < self.events().len() ==> (#[trigger] self.events()[i]).id < (
            #[trigger] self.events()[j]).id
        &&& forall|i: int|
            0 <= i < self.events().len() ==> (#[trigger] self.events()[i]).id < self.next_id()
        &&& forall|s: Source| #[trigger] of_source(self.events(), s).len() <= self.capacity()
    }

    /// An empty record that keeps `capacity` events for each source.
    pub fn new(capacity: usize) -> (log: EventLog)
        ensures
            log.wf(),
            log.events() == Seq::<ControlEvent>::empty(),
            log.capacity() == capacity,
            log.next_id() == 0,
    {
        let log = EventLog { capacity: capacity, next_id: 0, events: Vec::new() };
        proof {
            reveal(Seq::filter);
        }
        log
    }

    /// The number of events held.
    pub fn len(&self) -> (n: usize)
        ensures
            n == self.events().len(),
    {
        self.events.len()
    }

    /// Records an event and returns its number. Nothing is recorded, and
    /// there is no number, only when the event numbers are used up.
    pub fn record(&mut self, at: u64, source: Source, notice: Notice) -> (id: Option<u64>)
        requires
            old(self).wf(),
        ensures
            final(self).wf(),
            final(self).capacity() == old(self).capacity(),
            id == if old(self).next_id() == u64::MAX {
                None
            } else {
                Some(old(self).next_id())
            },
            (final(self).events(), final(self).next_id()) == recorded(
                old(self).events(),
                old(self).capacity(),
                old(self).next_id(),
                at,
                source,
                notice,
            ),
    {
        if self.next_id == u64::MAX {
            return None;
        }
        let id = self.next_id;
        let e = ControlEvent { id: id, at: at, source: source, notice: notice };
        let ghost before = self.events@;
        self.next_id = id + 1;
        if self.capacity == 0 {
            proof {
                lemma_empty_when_no_capacity(before);
            }
            return Some(id);
        }
        let (count, oldest) = self.tally(source);
        let full = count >= self.capacity;
        if full {
            proof {
                lemma_oldest_of(before, source);
                lemma_remove_counts(before, oldest as int);
            }
            self.events.remove(oldest);
        }
        let ghost kept = self.events@;
        self.events.push(e);
        proof {
            assert forall|s: Source| #[trigger]
                of_source(self.events@, s).len() <= self.capacity as nat by {
                kept.lemma_filter_push(e, |x: ControlEvent| x.source == s);
                assert(of_source(before, s).len() <= self.capacity as nat);
                if full {
                    assert(kept == before.remove(oldest as int));
                    assert(of_source(before.remove(oldest as int), s).len() == of_source(
                        before,
                        s,
                    ).len() - if before[oldest as int].source == s {
                        1int
                    } else {
                        0int
                    });
                }
            }
            assert forall|i: int, j: int| 0 <= i < j < self.events@.len() implies (
            #[trigger] self.events@[i]).id < (#[trigger] self.events@[j]).id by {
                if full {
                    before.remove_ensures(oldest as int);
                }
            }
        }
        Some(id)
    }

    /// Records a run of notices, in order, all at one time and from one
    /// source.
    pub fn record_all(&mut self, at: u64, source: Source, notices: &Vec<Notice>)
        requires
            old(self).wf(),
        ensures
            final(self).wf(),
            final(self).capacity() == old(self).capacity(),
            (final(self).events(), final(self).next_id()) == recorded_all(
                old(self).events(),
                old(self).capacity(),
                old(self).next_id(),
                at,
                source,
                notices@,
            ),
    {
        let mut i: usize = 0;
        while i < notices.len()
            invariant
                i <= notices@.len(),
                self.wf(),
                self.capacity() == old(self).capacity(),
                (self.events(), self.next_id()) == recorded_all(
                    old(self).events(),
                    old(self).capacity(),
                    old(self).next_id(),
                    at,
                    source,
                    notices@.take(i as int),
                ),
            decreases notices@.len() - i,
        {
            proof {
                assert(notices@.take(i + 1).drop_last() =~= notices@.take(i as int));
            }
            self.record(at, source, notices[i]);
            i = i + 1;
        }
        proof {
            assert(notices@.take(notices@.len() as int) =~= notices@);
        }
    }

    /// Counts the events of `source` and finds the oldest of them.
    fn tally(&self, source: Source) -> (r: (usize, usize))
        ensures
            r.0 == of_source(self.events@, source).len(),
            r.1 == oldest_of(self.events@, source),
            r.1 <= self.events@.len(),
    {
        let n = self.events.len();
        let mut count: usize = 0;
        let mut oldest: usize = n;
        let mut i: usize = n;
        proof {
            reveal(Seq::filter);
            assert(self.events@.subrange(n as int, n as int) =~= Seq::<ControlEvent>::empty());
        }
        while i > 0
            invariant
                n == self.events@.len(),
                i <= n,
                count <= n - i,
                count == of_source(self.events@.subrange(i as int, n as int), source).len(),
                oldest - i == oldest_of(self.events@.subrange(i as int, n as int), source),
                i <= oldest <= n,
            decreases i,
        {
            i = i - 1;
            let ghost tail = self.events@.subrange(i as int, n as int);
            let ghost shorter = self.events@.subrange(i + 1, n as int);
            proof {
                assert(tail.drop_first() =~= shorter);
                assert(tail =~= seq![self.events@[i as int]] + shorter);
                Seq::filter_distributes_over_add(
                    seq![self.events@[i as int]],
                    shorter,
                    |x: ControlEvent| x.source == source,
                );
                lemma_count_one(self.events@[i as int], source);
            }
            if same_source(self.events[i].source, source) {
                count = count + 1;
                oldest = i;
            }
        }
        proof {
            assert(self.events@.subrange(0, n as int) =~= self.events@);
        }
        (count, oldest)
    }

    /// The events that a query selects, oldest first.
    pub fn query(&self, source: Option<Source>, since: Option<u64>) -> (found: Vec<ControlEvent>)
        ensures
            found@ == self.events().filter(|e: ControlEvent| selected(e, source, since)),
    {
        let ghost wanted = |e: ControlEvent| selected(e, source, since);
        let mut found: Vec<ControlEvent> = Vec::new();
        let mut i: usize = 0;
        proof {
            reveal(Seq::filter);
            assert(self.events@.take(0) =~= Seq::<ControlEvent>::empty());
        }
        while i < self.events.len()
            invariant
                i <= self.events@.len(),
                wanted == |e: ControlEvent| selected(e, source, since),
                found@ == self.events@.take(i as int).filter(wanted),
            decreases self.events@.len() - i,
        {
            let e = self.events[i];
            proof {
                assert(self.events@.take(i + 1) =~= self.events@.take(i as int).push(e));
                self.events@.take(i as int).lemma_filter_push(e, wanted);
            }
            let of_source = match source {
                Some(s) => same_source(e.source, s),
                None => true,
            };
            let late_enough = match since {
                Some(id) => e.id > id,
                None => true,
            };
            if of_source && late_enough {
                found.push(e);
            }
            i = i + 1;
        }
        proof {
            assert(self.events@.take(self.events@.len() as int) =~= self.events@);
        }
        found
    }
}

/// Whether two sources are the same.
pub fn same_source(a: Source, b: Source) -> (r: bool)
    ensures
        r == (a == b),
{
    match (a, b) {
        (Source::Daemon, Source::Daemon) => true,
        (Source::Entry(x), Source::Entry(y)) => x == y,
        _ => false,
    }
}

proof fn lemma_count_one(e: ControlEvent, source: Source)
    ensures
        of_source(seq![e], source).len() == if e.source == source {
            1nat
        } else {
            0nat
        },
{
    reveal_with_fuel(Seq::filter, 2);
    assert(seq![e].drop_last() =~= Seq::<ControlEvent>::empty());
}

proof fn lemma_empty_when_no_capacity(events: Seq<ControlEvent>)
    requires
        forall|s: Source| #[trigger] of_source(events, s).len() <= 0,
    ensures
        events.len() == 0,
{
    if events.len() > 0 {
        let s = events[0].source;
        let p = |x: ControlEvent| x.source == s;
        assert(events =~= seq![events[0]] + events.drop_first());
        Seq::filter_distributes_over_add(seq![events[0]], events.drop_first(), p);
        lemma_count_one(events[0], s);
        assert(of_source(events, s).len() >= 1);
    }
}

/// The oldest event of a source is of that source, and none before it is.
pub proof fn lemma_oldest_of(events: Seq<ControlEvent>, source: Source)
    ensures
        0 <= oldest_of(events, source) <= events.len(),
        oldest_of(events, source) < events.len() ==> events[oldest_of(events, source)].source
            == source,
        forall|i: int| 0 <= i < oldest_of(events, source) ==> (#[trigger] events[i]).source != source,
        of_source(events, source).len() > 0 ==> oldest_of(events, source) < events.len(),
    decreases events.len(),
{
    if events.len() > 0 {
        let rest = events.drop_first();
        lemma_oldest_of(rest, source);
        let p = |x: ControlEvent| x.source == source;
        assert(events =~= seq![events[0]] + rest);
        Seq::filter_distributes_over_add(seq![events[0]], rest, p);
        lemma_count_one(events[0], source);
        if events[0].source != source {
            assert forall|i: int| 0 <= i < oldest_of(events, source) implies (
            #[trigger] events[i]).source != source by {
                if i > 0 {
                    assert(events[i] == rest[i - 1]);
                }
            }
        }
    } else {
        reveal(Seq::filter);
    }
}

/// A busy source never pushes out what others recorded: one more event
/// leaves every event of another source where it was in the order, and of
/// its own source at most the oldest goes.
pub proof fn law_others_are_kept(events: Seq<ControlEvent>, capacity: nat, e: ControlEvent, i: int)
    requires
        capacity > 0,
        0 <= i < events.len(),
        events[i].source != e.source || i != oldest_of(events, e.source),
    ensures
        appended(events, capacity, e).contains(events[i]),
        appended(events, capacity, e).last() == e,
        appended(events, capacity, e).len() >= events.len(),
{
    lemma_oldest_of(events, e.source);
    let after = appended(events, capacity, e);
    if of_source(events, e.source).len() >= capacity {
        let k = oldest_of(events, e.source);
        events.remove_ensures(k);
        if i < k {
            assert(after[i] == events[i]);
        } else {
            assert(after[i - 1] == events[i]);
        }
    } else {
        assert(after[i] == events[i]);
    }
}

/// Taking one event out takes one from the count of its source and leaves
/// the counts of the others.
pub proof fn lemma_remove_counts(events: Seq<ControlEvent>, k: int)
    requires
        0 <= k < events.len(),
    ensures
        forall|s: Source| #[trigger]
            of_source(events.remove(k), s).len() == of_source(events, s).len() - if events[k].source
                == s {
                1int
            } else {
                0int
            },
{
    assert forall|s: Source| #[trigger]
        of_source(events.remove(k), s).len() == of_source(events, s).len() - if events[k].source
            == s {
            1int
        } else {
            0int
        } by {
        let p = |x: ControlEvent| x.source == s;
        let a = events.subrange(0, k);
        let b = events.subrange(k + 1, events.len() as int);
        assert(events =~= (a + seq![events[k]]) + b);
        Seq::filter_distributes_over_add(a + seq![events[k]], b, p);
        Seq::filter_distributes_over_add(a, seq![events[k]], p);
        Seq::filter_distributes_over_add(a, b, p);
        lemma_count_one(events[k], s);
    }
}

} // verus!
