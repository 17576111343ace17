//! What holds of every step and of every run of an entry's machine.

use vstd::prelude::*;
use crate::backoff::delay_spec;
use crate::lifecycle::Action;
use crate::lifecycle::EntryMachine;
use crate::lifecycle::ErrorClass;
use crate::lifecycle::Event;
use crate::lifecycle::in_flight;
use crate::lifecycle::LifecycleState;
use crate::lifecycle::needs_operator;
use crate::lifecycle::open_challenge;
use crate::lifecycle::RetryPolicy;

verus! {

/// The sequence of no or one element that an option stands for.
pub open spec fn listed(o: Option<u64>) -> Seq<u64> {
    match o {
        Some(c) => seq![c],
        None => Seq::empty(),
    }
}

/// The challenge record that a step provisions: the one of the state that
/// the step enters, where the state it leaves held none.
pub open spec fn provisioned(before: LifecycleState, after: LifecycleState) -> Option<u64> {
    if before is Solving {
        None
    } else {
        open_challenge(after)
    }
}

/// The machine after a run of events, each with the time at which it came.
pub open spec fn run(m: EntryMachine, events: Seq<(Event, u64)>, policy: RetryPolicy)
    -> EntryMachine
    decreases events.len(),
{
    if events.len() == 0 {
        m
    } else {
        run(m, events.drop_last(), policy).next(events.last().0, events.last().1, policy).0
    }
}

/// The challenge records that a run asks its driver to release, in order.
pub open spec fn released(m: EntryMachine, events: Seq<(Event, u64)>, policy: RetryPolicy) -> Seq<
    u64,
>
    decreases events.len(),
{
    if events.len() == 0 {
        Seq::empty()
    } else {
        let before = run(m, events.drop_last(), policy);
        released(m, events.drop_last(), policy) + listed(
            before.next(events.last().0, events.last().1, policy).1.cleanup,
        )
    }
}

/// The challenge records that come to be provisioned during a run, in order.
pub open spec fn acquired(m: EntryMachine, events: Seq<(Event, u64)>, policy: RetryPolicy) -> Seq<
    u64,
>
    decreases events.len(),
{
    if events.len() == 0 {
        Seq::empty()
    } else {
        let before = run(m, events.drop_last(), policy);
        acquired(m, events.drop_last(), policy) + listed(
            provisioned(
                before.state,
                before.next(events.last().0, events.last().1, policy).0.state,
            ),
        )
    }
}

/// A step asks for the release of a challenge record exactly when it leaves
/// the state that holds the record, and then of that record.
pub proof fn law_release_on_leaving(m: EntryMachine, ev: Event, now: u64, policy: RetryPolicy)
    ensures
        ({
            let (after, out) = m.next(ev, now, policy);
            out.cleanup == if after.state == m.state {
                None
            } else {
                open_challenge(m.state)
            }
        }),
        ({
            let (after, out) = m.next(ev, now, policy);
            m.state is Solving && after.state is Solving ==> after.state == m.state
        }),
{
}

/// Every challenge record is released exactly once: over any run, the
/// records held at the start and those provisioned on the way are, in the
/// same order, those released on the way and the one still held at the end.
pub proof fn law_every_record_released_once(
    m: EntryMachine,
    events: Seq<(Event, u64)>,
    policy: RetryPolicy,
)
    ensures
        listed(open_challenge(m.state)) + acquired(m, events, policy) == released(
            m,
            events,
            policy,
        ) + listed(open_challenge(run(m, events, policy).state)),
    decreases events.len(),
{
    if events.len() == 0 {
        assert(listed(open_challenge(m.state)) + Seq::<u64>::empty() =~= Seq::<u64>::empty()
            + listed(open_challenge(m.state)));
    } else {
        let earlier = events.drop_last();
        law_every_record_released_once(m, earlier, policy);
        let before = run(m, earlier, policy);
        let (after, out) = before.next(events.last().0, events.last().1, policy);
        law_release_on_leaving(before, events.last().0, events.last().1, policy);
        let held = listed(open_challenge(m.state));
        let got = listed(provisioned(before.state, after.state));
        let gone = listed(out.cleanup);
        assert(listed(open_challenge(before.state)) + got =~= gone + listed(
            open_challenge(after.state),
        ));
        assert(held + (acquired(m, earlier, policy) + got) =~= (held + acquired(
            m,
            earlier,
            policy,
        )) + got);
        assert((released(m, earlier, policy) + listed(open_challenge(before.state))) + got
            =~= released(m, earlier, policy) + (listed(open_challenge(before.state)) + got));
        assert(released(m, earlier, policy) + (gone + listed(open_challenge(after.state)))
            =~= (released(m, earlier, policy) + gone) + listed(open_challenge(after.state)));
    }
}

/// A shutdown leaves no entry in flight and releases the record it held.
pub proof fn law_stop_releases(m: EntryMachine, now: u64, policy: RetryPolicy)
    ensures
        !in_flight(m.next(Event::Stop, now, policy).0.state),
        m.next(Event::Stop, now, policy).1.cleanup == open_challenge(m.state),
        m.next(Event::Stop, now, policy).1.action == Action::Nothing,
{
}

/// A transient error never leaves an entry waiting for an operator: after
/// it the entry is failed with an instant at which it starts again, at most
/// the policy's longest delay away.
pub proof fn law_transient_is_retried(m: EntryMachine, now: u64, policy: RetryPolicy)
    ensures
        needs_operator(m.next(Event::Failed(ErrorClass::Transient), now, policy).0.state)
            ==> needs_operator(m.state),
        in_flight(m.state) ==> (m.next(
            Event::Failed(ErrorClass::Transient),
            now,
            policy,
        ).0.state matches LifecycleState::Failed(_, Some(t)) && now <= t <= now + policy.cap),
{
    let d = delay_spec(policy.base, policy.cap, m.failures as nat);
    assert(d <= policy.cap);
}

/// After a rate limit an entry pauses at least as long as after any
/// transient error, under a policy that makes sense.
pub proof fn law_rate_limit_pauses_longest(policy: RetryPolicy, failures: u32, now: u64)
    requires
        policy.wf(),
    ensures
        policy.retry_at(ErrorClass::Transient, failures, now)->0 <= policy.retry_at(
            ErrorClass::RateLimited,
            failures,
            now,
        )->0,
{
}

/// Only a permanent error makes an entry wait for an operator.
pub proof fn law_only_permanent_needs_operator(
    m: EntryMachine,
    ev: Event,
    now: u64,
    policy: RetryPolicy,
)
    requires
        !needs_operator(m.state),
        needs_operator(m.next(ev, now, policy).0.state),
    ensures
        ev == Event::Failed(ErrorClass::Permanent),
        in_flight(m.state),
{
}

/// An entry that waits for an operator stays as it is until a reload.
pub proof fn law_operator_must_reload(m: EntryMachine, ev: Event, now: u64, policy: RetryPolicy)
    requires
        needs_operator(m.state),
        ev != Event::Reload,
    ensures
        m.next(ev, now, policy).0 == m,
        m.next(ev, now, policy).1.action == Action::Nothing,
{
}

/// No second order: a reload, or a periodic evaluation, of an entry in
/// flight changes nothing, and whatever the event, an order is created only
/// for an entry that was not in flight.
pub proof fn law_one_order_at_a_time(m: EntryMachine, ev: Event, now: u64, policy: RetryPolicy)
    ensures
        in_flight(m.state) && (ev == Event::Reload || ev == Event::Tick) ==> m.next(
            ev,
            now,
            policy,
        ) == m.stay(),
        m.next(ev, now, policy).1.action == Action::CreateOrder ==> !in_flight(m.state) && m.next(
            ev,
            now,
            policy,
        ).0.state == LifecycleState::PlacingOrder,
{
}

/// The renewal instant of the certificate in place changes only when a new
/// certificate has been written: no failure loses the certificate on disk.
pub proof fn law_certificate_kept(m: EntryMachine, ev: Event, now: u64, policy: RetryPolicy)
    ensures
        m.next(ev, now, policy).0.renew_at != m.renew_at ==> ev is Written && m.state
            == LifecycleState::Delivering,
        m.next(ev, now, policy).0.threshold == m.threshold,
        m.next(ev, now, policy).0.notify == m.notify,
{
}

/// A delivery is written at most `write_attempts` times, and at least once.
pub proof fn law_writes_bounded(m: EntryMachine, now: u64, policy: RetryPolicy)
    requires
        m.state == LifecycleState::Delivering,
    ensures
        m.next(Event::WriteFailed, now, policy).1.action == Action::Deliver ==> m.writes + 1
            < policy.write_attempts,
        m.next(Event::WriteFailed, now, policy).1.action != Action::Deliver ==> m.next(
            Event::WriteFailed,
            now,
            policy,
        ).0.state is Failed,
{
}

/// A failed notification leaves the delivered certificate as it is.
pub proof fn law_notification_is_separate(m: EntryMachine, now: u64, policy: RetryPolicy)
    ensures
        m.next(Event::NotifyFailed, now, policy).0 == m,
{
}

/// A notification is asked for only when a certificate has just been written.
pub proof fn law_notify_after_delivery(m: EntryMachine, ev: Event, now: u64, policy: RetryPolicy)
    requires
        m.next(ev, now, policy).1.action == Action::Notify,
    ensures
        ev is Written,
        m.state == LifecycleState::Delivering,
        m.next(ev, now, policy).0.state is Succeeded,
{
}

} // verus!
