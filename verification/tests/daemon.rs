use arcme::config::AcmeServer;
use arcme::config::CertContent;
use arcme::config::CertType;
use arcme::config::CertificateEntry;
use arcme::config::ChallengeType;
use arcme::config::ConfigError;
use arcme::config::DnsType;
use arcme::config::FileSave;
use arcme::config::ReloadType;
use arcme::config::Slot;
use arcme::control::parse_request;
use arcme::control::ControlRequest;
use arcme::control::Response;
use arcme::daemon::Daemon;
use arcme::events::ControlEvent;
use arcme::events::Notice;
use arcme::events::Source;
use arcme::lifecycle::Action;
use arcme::lifecycle::ErrorClass;
use arcme::lifecycle::Event;
use arcme::lifecycle::Failure;
use arcme::lifecycle::LifecycleState;
use arcme::lifecycle::Outcome;
use arcme::lifecycle::Phase;
use arcme::lifecycle::RetryPolicy;
use arcme::scheduler::Dispatch;
use arcme::threshold::RenewThreshold;

const DAY: u64 = 86_400;

fn entry(name: &str) -> Slot {
    Slot::Enabled(CertificateEntry {
        name: name.to_string(),
        domains: vec![format!("{}.example.org", name)],
        server: AcmeServer {
            host: "acme.example".to_string(),
            port: 443,
            url: "https://acme.example/directory".to_string(),
        },
        challenge_type: ChallengeType::Http01,
        dns_type: DnsType::SystemDNS,
        threshold: RenewThreshold::Before(30 * DAY),
        cert_type: CertType::PEM,
        cert_content: CertContent::CertKey,
        cert_file: FileSave {
            path: format!("/etc/ssl/{}.pem", name),
            mode: None,
            gid: None,
            uid: None,
        },
        mode: None,
        reload_type: Some(ReloadType::CLI("reload".to_string())),
        log_file: None,
    })
}

fn policy() -> RetryPolicy {
    RetryPolicy::checked(60, 3_600, 7_200, 3).unwrap()
}

fn daemon() -> Daemon {
    let slots = vec![
        entry("web"),
        Slot::Disabled("keys".to_string(), ConfigError::InsufficientContent),
        entry("mail"),
    ];
    Daemon::start(&slots, policy(), 8, 1_000)
}

fn order(entry: usize) -> Dispatch {
    Dispatch { entry, outcome: Outcome { cleanup: None, action: Action::CreateOrder } }
}

fn event(id: u64, at: u64, source: Source, notice: Notice) -> ControlEvent {
    ControlEvent { id, at, source, notice }
}

fn ids(r: Response) -> Vec<u64> {
    match r {
        Response::Events(found) => found.iter().map(|e| e.id).collect(),
        other => panic!("{:?}", other),
    }
}

#[test]
fn a_policy_must_make_sense() {
    assert_eq!(
        RetryPolicy::checked(60, 3_600, 7_200, 3),
        Some(RetryPolicy { base: 60, cap: 3_600, cooldown: 7_200, write_attempts: 3 })
    );
    assert_eq!(
        RetryPolicy::checked(0, 0, 0, 1),
        Some(RetryPolicy { base: 0, cap: 0, cooldown: 0, write_attempts: 1 })
    );
    assert_eq!(RetryPolicy::checked(61, 60, 7_200, 3), None);
    assert_eq!(RetryPolicy::checked(60, 3_600, 3_599, 3), None);
    assert_eq!(RetryPolicy::checked(60, 3_600, 7_200, 0), None);
}

#[test]
fn the_daemon_starts_with_the_accepted_entries() {
    let d = daemon();
    assert_eq!(d.len(), 2);
    assert_eq!(d.name(0), Some(&"web".to_string()));
    assert_eq!(d.name(1), Some(&"mail".to_string()));
    assert_eq!(d.name(2), None);
    assert_eq!(d.snapshot(), vec![LifecycleState::Idle; 2]);
    assert_eq!(
        d.machine(1),
        Some(arcme::lifecycle::EntryMachine::new(RenewThreshold::Before(30 * DAY), true))
    );
    assert_eq!(d.machine(2), None);
    assert_eq!(
        d.events(None, None),
        vec![event(
            0,
            1_000,
            Source::Daemon,
            Notice::Disabled(ConfigError::InsufficientContent)
        )]
    );
}

#[test]
fn every_step_shows_in_the_record() {
    let mut d = daemon();
    assert_eq!(d.tick(2_000), vec![order(0), order(1)]);
    assert_eq!(
        d.events(None, Some(0)),
        vec![
            event(1, 2_000, Source::Entry(0), Notice::State(LifecycleState::PlacingOrder)),
            event(2, 2_000, Source::Entry(1), Notice::State(LifecycleState::PlacingOrder)),
        ]
    );
    // a step that changes nothing leaves nothing
    assert_eq!(d.tick(2_001), Vec::new());
    assert_eq!(d.events(None, Some(2)), Vec::new());
    // a failure shows with the new state
    let failure = Failure { class: ErrorClass::Transient, during: Phase::PlacingOrder };
    assert_eq!(
        d.report(1, Event::Failed(ErrorClass::Transient), 2_002),
        Some(Outcome { cleanup: None, action: Action::Report(failure) })
    );
    assert_eq!(
        d.events(None, Some(2)),
        vec![
            event(
                3,
                2_002,
                Source::Entry(1),
                Notice::State(LifecycleState::Failed(failure, Some(2_062)))
            ),
            event(4, 2_002, Source::Entry(1), Notice::Failure(failure)),
        ]
    );
    // the other entry is as it was
    assert_eq!(d.snapshot()[0], LifecycleState::PlacingOrder);
    assert_eq!(d.report(2, Event::Tick, 2_003), None);
    assert_eq!(d.events(None, Some(4)), Vec::new());
}

#[test]
fn a_failed_notification_shows_and_changes_nothing() {
    let mut d = daemon();
    d.tick(0);
    d.report(0, Event::OrderCreated, 1);
    d.report(0, Event::AllValid, 2);
    d.report(0, Event::Issued, 3);
    d.report(0, Event::Written { issued_at: 0, expires_at: 90 * DAY }, 4);
    let before = d.machine(0);
    let seen = d.events(None, None).len();
    let failure = Failure { class: ErrorClass::Transient, during: Phase::Notifying };
    assert_eq!(
        d.report(0, Event::NotifyFailed, 5),
        Some(Outcome { cleanup: None, action: Action::Report(failure) })
    );
    assert_eq!(d.machine(0), before);
    let events = d.events(None, None);
    assert_eq!(events.len(), seen + 1);
    assert_eq!(events[seen].notice, Notice::Failure(failure));
    assert_eq!(events[seen].source, Source::Entry(0));
}

#[test]
fn serving_reload() {
    let mut d = daemon();
    let one = parse_request("reload mail").unwrap();
    assert_eq!(d.serve(&one, 5), Response::Reloaded(vec![order(1)]));
    assert_eq!(d.snapshot(), vec![LifecycleState::Idle, LifecycleState::PlacingOrder]);
    assert_eq!(
        d.events(None, Some(0)),
        vec![
            event(1, 5, Source::Daemon, Notice::ReloadRequested),
            event(2, 5, Source::Entry(1), Notice::State(LifecycleState::PlacingOrder)),
        ]
    );
    // the entry is in flight now: a second reload creates no second order
    assert_eq!(d.serve(&one, 6), Response::Reloaded(Vec::new()));
    assert_eq!(d.snapshot(), vec![LifecycleState::Idle, LifecycleState::PlacingOrder]);
    assert_eq!(
        d.events(None, Some(2)),
        vec![event(3, 6, Source::Daemon, Notice::ReloadRequested)]
    );
    let all = parse_request("reload").unwrap();
    assert_eq!(d.serve(&all, 7), Response::Reloaded(vec![order(0)]));
    assert_eq!(d.snapshot(), vec![LifecycleState::PlacingOrder; 2]);
}

#[test]
fn an_unknown_entry_changes_nothing() {
    let mut d = daemon();
    let before = d.events(None, None);
    for line in ["reload keys", "reload dns", "log keys", "log dns +1"] {
        assert_eq!(d.serve(&parse_request(line).unwrap(), 5), Response::UnknownEntry);
    }
    assert_eq!(d.snapshot(), vec![LifecycleState::Idle; 2]);
    assert_eq!(d.events(None, None), before);
}

#[test]
fn serving_stop() {
    let mut d = daemon();
    d.tick(0);
    d.report(1, Event::OrderCreated, 0);
    d.report(1, Event::ChallengeOffered(9), 0);
    let seen = d.events(None, None).len();
    assert_eq!(
        d.serve(&ControlRequest::Stop, 1),
        Response::Stopping(vec![Dispatch {
            entry: 1,
            outcome: Outcome { cleanup: Some(9), action: Action::Nothing },
        }])
    );
    assert_eq!(d.snapshot(), vec![LifecycleState::Idle; 2]);
    let events = d.events(None, None);
    assert_eq!(events[seen].notice, Notice::StopRequested);
    assert_eq!(events[seen].source, Source::Daemon);
    assert_eq!(events[seen + 1].notice, Notice::State(LifecycleState::Idle));
    assert_eq!(events[seen + 1].source, Source::Entry(0));
    assert_eq!(events[seen + 2].source, Source::Entry(1));
    assert_eq!(events.len(), seen + 3);
}

#[test]
fn serving_log() {
    let mut d = daemon();
    d.tick(10);
    d.report(1, Event::OrderCreated, 11);
    // 0: keys disabled, 1: web ordering, 2: mail ordering, 3: mail authorizing
    assert_eq!(ids(d.serve(&parse_request("log").unwrap(), 12)), [0, 1, 2, 3]);
    assert_eq!(ids(d.serve(&parse_request("log mail").unwrap(), 12)), [2, 3]);
    assert_eq!(ids(d.serve(&parse_request("log web").unwrap(), 12)), [1]);
    assert_eq!(ids(d.serve(&parse_request("log +1").unwrap(), 12)), [2, 3]);
    assert_eq!(ids(d.serve(&parse_request("log mail +2").unwrap(), 12)), [3]);
    assert_eq!(ids(d.serve(&parse_request("log web +1").unwrap(), 12)), Vec::<u64>::new());
    assert_eq!(d.events(None, None).len(), 4);
    assert_eq!(d.snapshot(), vec![LifecycleState::PlacingOrder, LifecycleState::Authorizing]);
}

#[test]
fn a_certificate_close_to_expiry_is_due_at_once() {
    // an entry solved over HTTP with a threshold of 30 days holds a
    // certificate valid for 90 days that expires in 20 days
    let mut d = daemon();
    let issued = 5_000 * DAY;
    let expires = issued + 90 * DAY;
    d.tick(issued);
    d.report(0, Event::OrderCreated, issued);
    d.report(0, Event::AllValid, issued);
    d.report(0, Event::Issued, issued);
    d.report(0, Event::Written { issued_at: issued, expires_at: expires }, issued);
    assert_eq!(d.snapshot()[0], LifecycleState::Succeeded(expires));
    let now = expires - 20 * DAY;
    assert!(d.machine(0).unwrap().is_due(now));
    let work = d.tick(now);
    assert_eq!(work[0], order(0));
    assert_eq!(d.snapshot()[0], LifecycleState::PlacingOrder);
}
