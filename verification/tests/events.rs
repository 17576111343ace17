use arcme::events::same_source;
use arcme::events::ControlEvent;
use arcme::events::EventLog;
use arcme::events::Notice;
use arcme::events::Source;
use arcme::lifecycle::LifecycleState;

fn state(id: u64, at: u64, source: Source, s: LifecycleState) -> ControlEvent {
    ControlEvent { id, at, source, notice: Notice::State(s) }
}

fn ids(events: &[ControlEvent]) -> Vec<u64> {
    events.iter().map(|e| e.id).collect()
}

#[test]
fn events_are_numbered_in_order() {
    let mut log = EventLog::new(10);
    assert_eq!(log.len(), 0);
    assert_eq!(log.record(5, Source::Daemon, Notice::ReloadRequested), Some(0));
    assert_eq!(log.record(6, Source::Entry(0), Notice::State(LifecycleState::Idle)), Some(1));
    assert_eq!(log.record(6, Source::Entry(1), Notice::State(LifecycleState::Idle)), Some(2));
    assert_eq!(log.len(), 3);
    assert_eq!(
        log.query(None, None),
        vec![
            ControlEvent { id: 0, at: 5, source: Source::Daemon, notice: Notice::ReloadRequested },
            state(1, 6, Source::Entry(0), LifecycleState::Idle),
            state(2, 6, Source::Entry(1), LifecycleState::Idle),
        ]
    );
}

#[test]
fn each_source_has_its_own_bound() {
    let mut log = EventLog::new(2);
    for i in 0..5u64 {
        log.record(i, Source::Entry(0), Notice::State(LifecycleState::Solving(i)));
    }
    log.record(9, Source::Entry(1), Notice::State(LifecycleState::Idle));
    log.record(9, Source::Daemon, Notice::StopRequested);
    // the two newest of entry 0 stay, the others are not pushed out by them
    assert_eq!(ids(&log.query(None, None)), vec![3, 4, 5, 6]);
    assert_eq!(ids(&log.query(Some(Source::Entry(0)), None)), vec![3, 4]);
    assert_eq!(ids(&log.query(Some(Source::Entry(1)), None)), vec![5]);
    assert_eq!(ids(&log.query(Some(Source::Daemon), None)), vec![6]);
    assert_eq!(ids(&log.query(Some(Source::Entry(2)), None)), Vec::<u64>::new());
    // a busy entry does not push out a quiet one
    for i in 0..10u64 {
        log.record(20 + i, Source::Entry(0), Notice::State(LifecycleState::Idle));
    }
    assert_eq!(ids(&log.query(None, None)), vec![5, 6, 15, 16]);
    assert_eq!(log.len(), 4);
}

#[test]
fn the_oldest_of_the_source_leaves() {
    let mut log = EventLog::new(2);
    log.record(0, Source::Entry(7), Notice::ReloadRequested);
    log.record(1, Source::Daemon, Notice::ReloadRequested);
    log.record(2, Source::Entry(7), Notice::ReloadRequested);
    log.record(3, Source::Daemon, Notice::ReloadRequested);
    log.record(4, Source::Daemon, Notice::StopRequested);
    assert_eq!(ids(&log.query(None, None)), vec![0, 2, 3, 4]);
    log.record(5, Source::Entry(7), Notice::ReloadRequested);
    assert_eq!(ids(&log.query(None, None)), vec![2, 3, 4, 5]);
}

#[test]
fn events_after_a_number() {
    let mut log = EventLog::new(10);
    for i in 0..6u64 {
        let source = if i % 2 == 0 { Source::Entry(0) } else { Source::Entry(1) };
        log.record(100 + i, source, Notice::State(LifecycleState::Idle));
    }
    assert_eq!(ids(&log.query(None, Some(2))), vec![3, 4, 5]);
    assert_eq!(ids(&log.query(None, Some(5))), Vec::<u64>::new());
    assert_eq!(ids(&log.query(None, Some(u64::MAX))), Vec::<u64>::new());
    assert_eq!(ids(&log.query(Some(Source::Entry(1)), Some(1))), vec![3, 5]);
    assert_eq!(ids(&log.query(Some(Source::Entry(0)), Some(0))), vec![2, 4]);
    assert_eq!(ids(&log.query(Some(Source::Entry(0)), None)), vec![0, 2, 4]);
}

#[test]
fn a_record_without_room_stays_empty() {
    let mut log = EventLog::new(0);
    assert_eq!(log.record(1, Source::Daemon, Notice::StopRequested), Some(0));
    assert_eq!(log.record(2, Source::Entry(0), Notice::StopRequested), Some(1));
    assert_eq!(log.len(), 0);
    assert_eq!(log.query(None, None), Vec::new());
}

#[test]
fn a_record_of_one() {
    let mut log = EventLog::new(1);
    log.record(1, Source::Entry(3), Notice::ReloadRequested);
    log.record(2, Source::Entry(3), Notice::StopRequested);
    assert_eq!(
        log.query(None, None),
        vec![ControlEvent { id: 1, at: 2, source: Source::Entry(3), notice: Notice::StopRequested }]
    );
}

#[test]
fn sources_compare() {
    assert!(same_source(Source::Daemon, Source::Daemon));
    assert!(same_source(Source::Entry(4), Source::Entry(4)));
    assert!(!same_source(Source::Entry(4), Source::Entry(5)));
    assert!(!same_source(Source::Daemon, Source::Entry(0)));
    assert!(!same_source(Source::Entry(0), Source::Daemon));
}
