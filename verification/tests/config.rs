use arcme::config::load_config;
use arcme::config::load_entry;
use arcme::config::lookup_server;
use arcme::config::AcmeServer;
use arcme::config::CentOutput;
use arcme::config::CertContent;
use arcme::config::CertType;
use arcme::config::CertificateEntry;
use arcme::config::ChallengeType;
use arcme::config::ConfigAcmeServer;
use arcme::config::ConfigError;
use arcme::config::ConfigFile;
use arcme::config::DnsType;
use arcme::config::FileSave;
use arcme::config::ReloadType;
use arcme::config::Slot;
use arcme::config::UserAndGroup;
use arcme::config::DEFAULT_CHECK_INTERVAL;
use arcme::threshold::RenewThreshold;

fn server(host: &str) -> AcmeServer {
    AcmeServer { host: host.to_string(), port: 443, url: format!("https://{}/directory", host) }
}

fn table() -> Vec<(String, AcmeServer)> {
    vec![
        ("staging".to_string(), server("staging.example")),
        ("production".to_string(), server("acme.example")),
        ("staging".to_string(), server("shadowed.example")),
    ]
}

fn file(path: &str, mode: Option<&str>) -> FileSave {
    FileSave {
        path: path.to_string(),
        mode: mode.map(|m| m.to_string()),
        gid: Some(UserAndGroup::Name("ssl".to_string())),
        uid: Some(UserAndGroup::ID(0)),
    }
}

fn output() -> CentOutput {
    CentOutput {
        domains: vec!["example.org".to_string(), "www.example.org".to_string()],
        cert_file: file("/etc/ssl/example.pem", Some("0640")),
        cert_type: CertType::PEM,
        cert_content: CertContent::CertChainKey,
        from_server: ConfigAcmeServer::Ref("production".to_string()),
        challenge_type: ChallengeType::Http01,
        dns_type: DnsType::SystemDNS,
        renew_threshold: "30d".to_string(),
        reload_type: Some(ReloadType::CLI("systemctl reload nginx".to_string())),
        log_file: None,
    }
}

fn disabled(name: &str, reason: ConfigError) -> Slot {
    Slot::Disabled(name.to_string(), reason)
}

fn load(out: CentOutput) -> Slot {
    load_entry("web".to_string(), out, &table())
}

#[test]
fn an_output_becomes_an_entry() {
    let slot = load(output());
    let expected = CertificateEntry {
        name: "web".to_string(),
        domains: vec!["example.org".to_string(), "www.example.org".to_string()],
        server: server("acme.example"),
        challenge_type: ChallengeType::Http01,
        dns_type: DnsType::SystemDNS,
        threshold: RenewThreshold::Before(30 * 86_400),
        cert_type: CertType::PEM,
        cert_content: CertContent::CertChainKey,
        cert_file: file("/etc/ssl/example.pem", Some("0640")),
        mode: Some(0o640),
        reload_type: Some(ReloadType::CLI("systemctl reload nginx".to_string())),
        log_file: None,
    };
    assert_eq!(slot, Slot::Enabled(expected));
}

#[test]
fn a_server_is_looked_up_by_name_from_the_front() {
    let t = table();
    assert_eq!(lookup_server(&t, &"staging".to_string()), Some(&server("staging.example")));
    assert_eq!(lookup_server(&t, &"production".to_string()), Some(&server("acme.example")));
    assert_eq!(lookup_server(&t, &"Production".to_string()), None);
    assert_eq!(lookup_server(&t, &"".to_string()), None);
    assert_eq!(lookup_server(&Vec::new(), &"staging".to_string()), None);
}

#[test]
fn a_server_given_in_place_needs_no_table() {
    let mut out = output();
    out.from_server = ConfigAcmeServer::Inline(server("private.example"));
    match load_entry("web".to_string(), out, &Vec::new()) {
        Slot::Enabled(e) => assert_eq!(e.server, server("private.example")),
        other => panic!("{:?}", other),
    }
}

#[test]
fn an_unresolved_server_disables_the_output() {
    let mut out = output();
    out.from_server = ConfigAcmeServer::Ref("nowhere".to_string());
    assert_eq!(load(out), disabled("web", ConfigError::UnresolvedServer));
}

#[test]
fn pkcs12_needs_certificate_and_key() {
    for content in [CertContent::KeyOnly, CertContent::CertOnly, CertContent::CertChainOnly] {
        let mut out = output();
        out.cert_type = CertType::PKCS12;
        out.cert_content = content;
        assert_eq!(load(out), disabled("web", ConfigError::InsufficientContent));
    }
    for content in [CertContent::CertKey, CertContent::CertChainKey] {
        let mut out = output();
        out.cert_type = CertType::PKCS12;
        out.cert_content = content;
        assert!(matches!(load(out), Slot::Enabled(_)));
    }
}

#[test]
fn the_other_encodings_take_any_content() {
    for kind in [CertType::PEM, CertType::DER, CertType::PKCS7] {
        for content in [
            CertContent::CertOnly,
            CertContent::KeyOnly,
            CertContent::CertKey,
            CertContent::CertChainOnly,
            CertContent::CertChainKey,
        ] {
            assert!(kind.can_hold(content));
            let mut out = output();
            out.cert_type = kind;
            out.cert_content = content;
            assert!(matches!(load(out), Slot::Enabled(_)));
        }
    }
}

#[test]
fn content_parts() {
    assert!(CertContent::CertOnly.with_certificate());
    assert!(!CertContent::CertOnly.with_chain());
    assert!(!CertContent::CertOnly.with_key());
    assert!(!CertContent::KeyOnly.with_certificate());
    assert!(!CertContent::KeyOnly.with_chain());
    assert!(CertContent::KeyOnly.with_key());
    assert!(CertContent::CertKey.with_certificate());
    assert!(!CertContent::CertKey.with_chain());
    assert!(CertContent::CertKey.with_key());
    assert!(CertContent::CertChainOnly.with_certificate());
    assert!(CertContent::CertChainOnly.with_chain());
    assert!(!CertContent::CertChainOnly.with_key());
    assert!(CertContent::CertChainKey.with_certificate());
    assert!(CertContent::CertChainKey.with_chain());
    assert!(CertContent::CertChainKey.with_key());
}

#[test]
fn the_dns_challenge_needs_a_resolver_that_publishes() {
    let mut out = output();
    out.challenge_type = ChallengeType::Dns01;
    out.dns_type = DnsType::SystemDNS;
    assert_eq!(load(out), disabled("web", ConfigError::DnsNotWritable));
    for dns in [
        DnsType::SoftwareDNS("ns1.example".to_string()),
        DnsType::DoT("dns.example".to_string()),
        DnsType::DoH("https://dns.example/query".to_string()),
    ] {
        assert!(dns.can_publish());
        let mut out = output();
        out.challenge_type = ChallengeType::Dns01;
        out.dns_type = dns;
        assert!(matches!(load(out), Slot::Enabled(_)));
    }
    assert!(!DnsType::SystemDNS.can_publish());
}

#[test]
fn the_resolver_does_not_matter_for_the_other_challenges() {
    for challenge in [ChallengeType::Http01, ChallengeType::TlsAlpn] {
        let mut out = output();
        out.challenge_type = challenge;
        out.dns_type = DnsType::SystemDNS;
        assert!(matches!(load(out), Slot::Enabled(_)));
    }
}

#[test]
fn threshold_and_modes_must_read() {
    let mut out = output();
    out.renew_threshold = "soon".to_string();
    assert_eq!(load(out), disabled("web", ConfigError::BadThreshold));
    let mut out = output();
    out.cert_file = file("/etc/ssl/example.pem", Some("rw-r-----"));
    assert_eq!(load(out), disabled("web", ConfigError::BadMode));
    let mut out = output();
    out.log_file = Some(file("/var/log/web.log", Some("0888")));
    assert_eq!(load(out), disabled("web", ConfigError::BadMode));
    let mut out = output();
    out.cert_file = file("/etc/ssl/example.pem", None);
    out.log_file = Some(file("/var/log/web.log", None));
    match load(out) {
        Slot::Enabled(e) => assert_eq!(e.mode, None),
        other => panic!("{:?}", other),
    }
    let mut out = output();
    out.renew_threshold = "33%".to_string();
    match load(out) {
        Slot::Enabled(e) => assert_eq!(e.threshold, RenewThreshold::Percent(33)),
        other => panic!("{:?}", other),
    }
}

#[test]
fn an_output_without_domains_is_refused() {
    let mut out = output();
    out.domains = Vec::new();
    assert_eq!(load(out), disabled("web", ConfigError::NoDomains));
}

#[test]
fn the_first_reason_is_given() {
    let mut out = output();
    out.domains = Vec::new();
    out.from_server = ConfigAcmeServer::Ref("nowhere".to_string());
    out.cert_type = CertType::PKCS12;
    out.cert_content = CertContent::KeyOnly;
    out.challenge_type = ChallengeType::Dns01;
    out.renew_threshold = "".to_string();
    out.cert_file = file("x", Some("9"));
    assert_eq!(load(out.clone()), disabled("web", ConfigError::NoDomains));
    out.domains = vec!["example.org".to_string()];
    assert_eq!(load(out.clone()), disabled("web", ConfigError::UnresolvedServer));
    out.from_server = ConfigAcmeServer::Ref("staging".to_string());
    assert_eq!(load(out.clone()), disabled("web", ConfigError::InsufficientContent));
    out.cert_content = CertContent::CertKey;
    assert_eq!(load(out.clone()), disabled("web", ConfigError::DnsNotWritable));
    out.dns_type = DnsType::DoT("dns.example".to_string());
    assert_eq!(load(out.clone()), disabled("web", ConfigError::BadThreshold));
    out.renew_threshold = "10%".to_string();
    assert_eq!(load(out.clone()), disabled("web", ConfigError::BadMode));
    out.cert_file = file("x", Some("600"));
    match load(out) {
        Slot::Enabled(e) => {
            assert_eq!(e.server, server("staging.example"));
            assert_eq!(e.mode, Some(0o600));
        }
        other => panic!("{:?}", other),
    }
}

fn config(outputs: Vec<(String, CentOutput)>) -> ConfigFile {
    ConfigFile {
        user_id: UserAndGroup::Name("acme".to_string()),
        check_interval: Some("12h".to_string()),
        log_file: Some(file("/var/log/arcme.log", Some("0644"))),
        acme_servers: Some(table()),
        cert_output: outputs,
    }
}

#[test]
fn a_bad_output_is_disabled_and_the_others_load() {
    let mut bad = output();
    bad.cert_type = CertType::PKCS12;
    bad.cert_content = CertContent::KeyOnly;
    let mut dns = output();
    dns.challenge_type = ChallengeType::Dns01;
    let with_bad = load_config(config(vec![
        ("first".to_string(), output()),
        ("keys".to_string(), bad),
        ("second".to_string(), output()),
        ("zone".to_string(), dns),
    ]))
    .unwrap();
    assert_eq!(with_bad.slots.len(), 4);
    assert_eq!(with_bad.slots[1], disabled("keys", ConfigError::InsufficientContent));
    assert_eq!(with_bad.slots[3], disabled("zone", ConfigError::DnsNotWritable));
    // the others are what they are without the bad ones
    let without = load_config(config(vec![
        ("first".to_string(), output()),
        ("second".to_string(), output()),
    ]))
    .unwrap();
    assert_eq!(with_bad.slots[0], without.slots[0]);
    assert_eq!(with_bad.slots[2], without.slots[1]);
    assert!(matches!(&with_bad.slots[0], Slot::Enabled(e) if e.name == "first"));
    assert!(matches!(&with_bad.slots[2], Slot::Enabled(e) if e.name == "second"));
}

#[test]
fn the_rest_of_the_configuration_is_kept() {
    let loaded = load_config(config(Vec::new())).unwrap();
    assert_eq!(loaded.user_id, UserAndGroup::Name("acme".to_string()));
    assert_eq!(loaded.check_interval, 43_200);
    assert_eq!(loaded.log_file, Some(file("/var/log/arcme.log", Some("0644"))));
    assert!(loaded.slots.is_empty());
}

#[test]
fn the_check_interval() {
    let mut c = config(Vec::new());
    c.check_interval = None;
    assert_eq!(load_config(c).unwrap().check_interval, DEFAULT_CHECK_INTERVAL);
    assert_eq!(DEFAULT_CHECK_INTERVAL, 3_600);
    for bad in ["", "0s", "0d", "often", "12", "99999999999999999999999s"] {
        let mut c = config(vec![("first".to_string(), output())]);
        c.check_interval = Some(bad.to_string());
        assert_eq!(load_config(c), Err(ConfigError::BadInterval));
    }
    let mut c = config(Vec::new());
    c.check_interval = Some("1s".to_string());
    assert_eq!(load_config(c).unwrap().check_interval, 1);
}

#[test]
fn without_a_table_only_references_fail() {
    let mut inline = output();
    inline.from_server = ConfigAcmeServer::Inline(server("private.example"));
    let mut c = config(vec![("a".to_string(), output()), ("b".to_string(), inline)]);
    c.acme_servers = None;
    let loaded = load_config(c).unwrap();
    assert_eq!(loaded.slots[0], disabled("a", ConfigError::UnresolvedServer));
    assert!(matches!(&loaded.slots[1], Slot::Enabled(e) if e.server == server("private.example")));
}
