use arcme::config::ReloadType;
use arcme::lifecycle::Event;
use arcme::notify::after_notify;
use arcme::notify::notify;
use arcme::notify::Notification;
use arcme::notify::NotifyOutcome;

#[test]
fn a_notification_for_each_mechanism() {
    assert_eq!(
        notify(&ReloadType::CLI("systemctl reload nginx".to_string()), 30),
        Notification::Run { command: "systemctl reload nginx".to_string(), timeout: 30 }
    );
    assert_eq!(
        notify(&ReloadType::UnixSocket("/run/web.sock".to_string()), 5),
        Notification::SignalUnix { path: "/run/web.sock".to_string(), timeout: 5 }
    );
    assert_eq!(
        notify(&ReloadType::NetSocket(8443, "127.0.0.1".to_string()), u64::MAX),
        Notification::SignalNet { host: "127.0.0.1".to_string(), port: 8443, timeout: u64::MAX }
    );
}

#[test]
fn no_notification_waits_for_ever() {
    assert_eq!(
        notify(&ReloadType::CLI("true".to_string()), 0),
        Notification::Run { command: "true".to_string(), timeout: 1 }
    );
    assert_eq!(
        notify(&ReloadType::UnixSocket("s".to_string()), 0),
        Notification::SignalUnix { path: "s".to_string(), timeout: 1 }
    );
    assert_eq!(
        notify(&ReloadType::NetSocket(1, "h".to_string()), 0),
        Notification::SignalNet { host: "h".to_string(), port: 1, timeout: 1 }
    );
}

#[test]
fn what_the_machine_is_told() {
    assert_eq!(after_notify(NotifyOutcome::Done), None);
    assert_eq!(after_notify(NotifyOutcome::Refused), Some(Event::NotifyFailed));
    assert_eq!(after_notify(NotifyOutcome::Unreachable), Some(Event::NotifyFailed));
    assert_eq!(after_notify(NotifyOutcome::TimedOut), Some(Event::NotifyFailed));
}
