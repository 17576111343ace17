use arcme::control::find_entry;
use arcme::control::parse_request;
use arcme::control::ControlRequest;

fn log_of(entry: Option<&str>, since: Option<u64>) -> Option<ControlRequest> {
    Some(ControlRequest::Log(entry.map(|e| e.to_string()), since))
}

#[test]
fn request_lines() {
    assert_eq!(parse_request("stop"), Some(ControlRequest::Stop));
    assert_eq!(parse_request("reload"), Some(ControlRequest::Reload(None)));
    assert_eq!(parse_request("reload web"), Some(ControlRequest::Reload(Some("web".to_string()))));
    assert_eq!(
        parse_request("reload mail.example.org"),
        Some(ControlRequest::Reload(Some("mail.example.org".to_string())))
    );
    assert_eq!(parse_request("log"), log_of(None, None));
    assert_eq!(parse_request("log web"), log_of(Some("web"), None));
    assert_eq!(parse_request("log +17"), log_of(None, Some(17)));
    assert_eq!(parse_request("log web +17"), log_of(Some("web"), Some(17)));
    assert_eq!(parse_request("log web +0"), log_of(Some("web"), Some(0)));
    assert_eq!(parse_request("log w+1"), log_of(Some("w+1"), None));
    assert_eq!(parse_request("log 17"), log_of(Some("17"), None));
    assert_eq!(parse_request("log z\u{fc}rich +3"), log_of(Some("z\u{fc}rich"), Some(3)));
    assert_eq!(
        parse_request("reload \u{65e5}\u{672c}"),
        Some(ControlRequest::Reload(Some("\u{65e5}\u{672c}".to_string())))
    );
    assert_eq!(parse_request("log +18446744073709551615"), log_of(None, Some(u64::MAX)));
    assert_eq!(parse_request("log +007"), log_of(None, Some(7)));
}

#[test]
fn lines_that_are_no_request() {
    for line in [
        "",
        " ",
        "Stop",
        "stop ",
        " stop",
        "stop now",
        "stop\n",
        "reload ",
        "reload  web",
        "reload web ",
        "reload web mail",
        "reload +web",
        "reloadweb",
        "log ",
        "log  web",
        "log web ",
        "log web 17",
        "log web +",
        "log web +x",
        "log web +1 ",
        "log web +1 +2",
        "log web mail",
        "log +",
        "log + 1",
        "log +1 web",
        "log +-1",
        "log +18446744073709551616",
        "logs",
        "status",
        "reload\tweb ",
    ] {
        assert_eq!(parse_request(line), None, "{:?}", line);
    }
}

fn names() -> Vec<String> {
    vec!["web".to_string(), "mail".to_string(), "web".to_string()]
}

#[test]
fn entries_by_name() {
    assert_eq!(find_entry(&names(), "web"), Some(0));
    assert_eq!(find_entry(&names(), "mail"), Some(1));
    assert_eq!(find_entry(&names(), "Mail"), None);
    assert_eq!(find_entry(&names(), ""), None);
    assert_eq!(find_entry(&Vec::new(), "web"), None);
}

