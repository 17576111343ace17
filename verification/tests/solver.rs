use arcme::client::PollPolicy;
use arcme::client::SolveError;
use arcme::config::ChallengeType;
use arcme::config::DnsType;
use arcme::lifecycle::Event;
use arcme::lifecycle::EntryMachine;
use arcme::lifecycle::RetryPolicy;
use arcme::solver::dns_name;
use arcme::solver::http_path;
use arcme::solver::pick_challenge;
use arcme::solver::prepare;
use arcme::solver::verify_ready;
use arcme::solver::ChallengeRecord;
use arcme::solver::Ledger;
use arcme::solver::Provision;
use arcme::solver::ReadyStep;
use arcme::threshold::RenewThreshold;

#[test]
fn where_answers_go() {
    assert_eq!(http_path("tok-1_A"), "/.well-known/acme-challenge/tok-1_A");
    assert_eq!(http_path(""), "/.well-known/acme-challenge/");
    assert_eq!(dns_name("example.org"), "_acme-challenge.example.org");
    assert_eq!(dns_name("b\u{fc}cher.example"), "_acme-challenge.b\u{fc}cher.example");
}

fn record(challenge: ChallengeType, dns: &DnsType, reference: u64) -> ChallengeRecord {
    prepare(challenge, dns, reference, "example.org", "tok", "https://acme.example/authz/1")
        .unwrap()
}

#[test]
fn records_by_challenge() {
    let system = DnsType::SystemDNS;
    let r = record(ChallengeType::Http01, &system, 5);
    assert_eq!(
        r,
        ChallengeRecord {
            reference: 5,
            token: "tok".to_string(),
            authorization_url: "https://acme.example/authz/1".to_string(),
            domain: "example.org".to_string(),
            provision: Provision::HttpFile("/.well-known/acme-challenge/tok".to_string()),
        }
    );
    assert_eq!(record(ChallengeType::TlsAlpn, &system, 6).provision, Provision::TlsListener);
    let doh = DnsType::DoH("https://dns.example/q".to_string());
    assert_eq!(
        record(ChallengeType::Dns01, &doh, 7).provision,
        Provision::DnsRecord("_acme-challenge.example.org".to_string())
    );
    assert_eq!(
        record(ChallengeType::Http01, &doh, 8).provision,
        Provision::HttpFile("/.well-known/acme-challenge/tok".to_string())
    );
}

#[test]
fn no_dns_challenge_without_a_resolver_that_publishes() {
    assert_eq!(
        prepare(ChallengeType::Dns01, &DnsType::SystemDNS, 1, "example.org", "tok", "u"),
        Err(SolveError::NoWriteCapability)
    );
    for dns in [
        DnsType::SoftwareDNS("ns".to_string()),
        DnsType::DoT("dot".to_string()),
        DnsType::DoH("doh".to_string()),
    ] {
        assert!(prepare(ChallengeType::Dns01, &dns, 1, "example.org", "tok", "u").is_ok());
    }
}

#[test]
fn readiness() {
    let p = PollPolicy { min_interval: 5, max_total: 30 };
    for challenge in [ChallengeType::Http01, ChallengeType::Dns01, ChallengeType::TlsAlpn] {
        assert_eq!(verify_ready(challenge, true, &p, 0, 0), ReadyStep::Ready);
        assert_eq!(verify_ready(challenge, true, &p, 9, 30), ReadyStep::Ready);
    }
    // the self-check of the others fails fast
    for challenge in [ChallengeType::Http01, ChallengeType::TlsAlpn] {
        assert_eq!(
            verify_ready(challenge, false, &p, 0, 0),
            ReadyStep::GiveUp(SolveError::NotReady)
        );
    }
    // a record takes time to show
    assert_eq!(verify_ready(ChallengeType::Dns01, false, &p, 0, 0), ReadyStep::Wait(5));
    assert_eq!(verify_ready(ChallengeType::Dns01, false, &p, 1, 5), ReadyStep::Wait(10));
    assert_eq!(verify_ready(ChallengeType::Dns01, false, &p, 2, 15), ReadyStep::Wait(15));
    assert_eq!(
        verify_ready(ChallengeType::Dns01, false, &p, 3, 30),
        ReadyStep::GiveUp(SolveError::NotReady)
    );
}

#[test]
fn a_record_is_released_once() {
    let system = DnsType::SystemDNS;
    let mut ledger = Ledger::new();
    assert_eq!(ledger.open(record(ChallengeType::Http01, &system, 1)), None);
    assert_eq!(ledger.open(record(ChallengeType::TlsAlpn, &system, 2)), None);
    assert_eq!(ledger.len(), 2);
    let released = ledger.release(1);
    assert_eq!(released, Some(record(ChallengeType::Http01, &system, 1)));
    assert_eq!(ledger.release(1), None);
    assert_eq!(ledger.release(3), None);
    assert_eq!(ledger.len(), 1);
    assert_eq!(ledger.release(2), Some(record(ChallengeType::TlsAlpn, &system, 2)));
    assert_eq!(ledger.len(), 0);
    assert_eq!(ledger.release(2), None);
}

#[test]
fn a_reference_is_entered_once() {
    let system = DnsType::SystemDNS;
    let mut ledger = Ledger::new();
    assert_eq!(ledger.open(record(ChallengeType::Http01, &system, 1)), None);
    let second = record(ChallengeType::TlsAlpn, &system, 1);
    assert_eq!(ledger.open(second.clone()), Some(second));
    assert_eq!(ledger.len(), 1);
    assert_eq!(ledger.release(1), Some(record(ChallengeType::Http01, &system, 1)));
}

#[test]
fn a_shutdown_takes_every_record() {
    let system = DnsType::SystemDNS;
    let mut ledger = Ledger::new();
    for reference in [4u64, 2, 9] {
        ledger.open(record(ChallengeType::Http01, &system, reference));
    }
    let all = ledger.drain();
    assert_eq!(all.iter().map(|r| r.reference).collect::<Vec<u64>>(), vec![4, 2, 9]);
    assert_eq!(ledger.len(), 0);
    assert_eq!(ledger.drain(), Vec::new());
    assert_eq!(ledger.open(record(ChallengeType::Http01, &system, 4)), None);
}

#[test]
fn a_stop_while_solving_retracts_the_published_record() {
    let dns = DnsType::SoftwareDNS("ns1.example".to_string());
    let policy = RetryPolicy { base: 60, cap: 3_600, cooldown: 7_200, write_attempts: 3 };
    let mut ledger = Ledger::new();
    let mut machine = EntryMachine::new(RenewThreshold::Before(0), false);
    machine.step(Event::Tick, 0, &policy);
    machine.step(Event::OrderCreated, 0, &policy);
    ledger.open(record(ChallengeType::Dns01, &dns, 31));
    machine.step(Event::ChallengeOffered(31), 0, &policy);
    // the operator stops the daemon
    let out = machine.step(Event::Stop, 1, &policy);
    let reference = out.cleanup.unwrap();
    let to_retract = ledger.release(reference).unwrap();
    assert_eq!(
        to_retract.provision,
        Provision::DnsRecord("_acme-challenge.example.org".to_string())
    );
    assert_eq!(ledger.len(), 0);
    assert!(!machine.is_in_flight());
}

#[test]
fn the_challenge_of_the_entry_is_picked() {
    let offered = vec![ChallengeType::Dns01, ChallengeType::Http01, ChallengeType::Http01];
    assert_eq!(pick_challenge(&offered, ChallengeType::Http01), Some(1));
    assert_eq!(pick_challenge(&offered, ChallengeType::Dns01), Some(0));
    assert_eq!(pick_challenge(&offered, ChallengeType::TlsAlpn), None);
    assert_eq!(pick_challenge(&Vec::new(), ChallengeType::Http01), None);
}

#[test]
fn resolvers() {
    assert!(!DnsType::SystemDNS.needs_confidentiality());
    assert!(!DnsType::SoftwareDNS("ns".to_string()).needs_confidentiality());
    assert!(DnsType::DoT("dot".to_string()).needs_confidentiality());
    assert!(DnsType::DoH("doh".to_string()).needs_confidentiality());
    assert_eq!(DnsType::SystemDNS.endpoint(), None);
    assert_eq!(DnsType::SoftwareDNS("ns".to_string()).endpoint(), Some(&"ns".to_string()));
    assert_eq!(DnsType::DoT("dot".to_string()).endpoint(), Some(&"dot".to_string()));
    assert_eq!(DnsType::DoH("doh".to_string()).endpoint(), Some(&"doh".to_string()));
}
