use installer_webhook::auth::EventAuth;
use installer_webhook::event::Event;
use installer_webhook::session::DiskAction;
use installer_webhook::session::LogResource;
use installer_webhook::session::Session;
use installer_webhook::session::SessionInit;
use std::time::Duration;
use std::time::Instant;

fn session(id: &str, timeout: u32, at: Instant) -> Session {
    Session::new_at(
        SessionInit {
            id: id.to_owned(),
            log_path: "/var/log/run".to_owned(),
            timeout,
            secret: "secret".to_owned(),
        },
        at,
    )
}

fn text(line: &str) -> Event {
    Event::Text(line.to_owned())
}

#[test]
fn new_session_is_empty_and_unresolved() {
    let now = Instant::now();
    let s = session("1", 10, now);
    assert_eq!(s.id(), "1");
    assert_eq!(s.timeout(), 10);
    assert_eq!(s.len(), 0);
    assert_eq!(s.log_resource(), LogResource::Unresolved);
    assert_eq!(s.last_updated(), now);
    assert_eq!(s.get_log_entries(0, None), Vec::<String>::new());
}

#[test]
fn entries_come_back_in_the_order_of_the_calls() {
    let mut s = session("1", 10, Instant::now());
    let lines = ["first", "second", "", "fourth", "second"];
    for line in lines {
        s.add_log_entry(text(line));
    }
    assert_eq!(s.len(), lines.len());
    assert_eq!(s.get_log_entries(0, None), lines.to_vec());
}

#[test]
fn entries_of_a_range() {
    let mut s = session("1", 10, Instant::now());
    for line in ["a", "b", "c", "d"] {
        s.add_log_entry(text(line));
    }
    assert_eq!(s.get_log_entries(1, Some(3)), vec!["b", "c"]);
    assert_eq!(s.get_log_entries(0, Some(4)), vec!["a", "b", "c", "d"]);
    assert_eq!(s.get_log_entries(2, Some(100)), vec!["c", "d"]);
    assert_eq!(s.get_log_entries(2, None), vec!["c", "d"]);
    assert_eq!(s.get_log_entries(3, Some(4)), vec!["d"]);
    assert_eq!(s.get_log_entries(0, Some(0)), Vec::<String>::new());
    assert_eq!(s.get_log_entries(2, Some(2)), Vec::<String>::new());
    assert_eq!(s.get_log_entries(3, Some(1)), Vec::<String>::new());
    assert_eq!(s.get_log_entries(4, None), Vec::<String>::new());
    assert_eq!(s.get_log_entries(5, Some(9)), Vec::<String>::new());
    assert_eq!(s.get_log_entries(usize::MAX, None), Vec::<String>::new());
    assert_eq!(
        s.get_log_entries(usize::MAX, Some(usize::MAX)),
        Vec::<String>::new()
    );
}

#[test]
fn events_render_as_text_or_as_name_and_length() {
    assert_eq!(text("plain: text").to_string(), "plain: text");
    assert_eq!(text("").to_string(), "");
    assert_eq!(
        Event::Raw("dump".to_owned(), vec![0xff, 0x00]).to_string(),
        "binary:dump:2"
    );
    assert_eq!(Event::Raw("".to_owned(), Vec::new()).to_string(), "binary::0");
    assert_eq!(
        Event::Raw("a/b".to_owned(), vec![7; 9]).to_string(),
        "binary:a/b:9"
    );
    assert_eq!(
        Event::Raw("x".to_owned(), vec![7; 10]).to_string(),
        "binary:x:10"
    );
    assert_eq!(
        Event::Raw("x".to_owned(), vec![0; 120_345]).to_string(),
        "binary:x:120345"
    );
}

#[test]
fn first_event_asks_to_open_the_shared_log() {
    let mut s = session("run-7", 10, Instant::now());
    assert_eq!(
        s.add_log_entry(text("A")),
        DiskAction::OpenLog {
            session: "run-7".to_owned(),
            path: "/var/log/run/events.log".to_owned()
        }
    );
    assert_eq!(s.log_resource(), LogResource::Unresolved);
    assert_eq!(
        s.log_opened(true),
        DiskAction::AppendLine {
            session: "run-7".to_owned(),
            line: "A".to_owned()
        }
    );
    assert_eq!(s.log_resource(), LogResource::Open);
    assert_eq!(
        s.add_log_entry(text("B")),
        DiskAction::AppendLine {
            session: "run-7".to_owned(),
            line: "B".to_owned()
        }
    );
    assert_eq!(
        s.add_log_entry(Event::Raw("../../etc/passwd".to_owned(), vec![1, 2])),
        DiskAction::WriteFile {
            path: "/var/log/run/file_passwd".to_owned(),
            data: vec![1, 2]
        }
    );
    assert_eq!(s.get_log_entries(0, None), vec!["A", "B", "binary:../../etc/passwd:2"]);
}

#[test]
fn failed_log_is_never_tried_again() {
    let mut s = session("1", 10, Instant::now());
    assert_eq!(
        s.add_log_entry(text("A")),
        DiskAction::OpenLog {
            session: "1".to_owned(),
            path: "/var/log/run/events.log".to_owned()
        }
    );
    assert_eq!(s.log_opened(false), DiskAction::Idle);
    assert_eq!(s.log_resource(), LogResource::Failed);
    assert_eq!(s.add_log_entry(text("B")), DiskAction::Idle);
    assert_eq!(s.log_opened(true), DiskAction::Idle);
    assert_eq!(s.log_resource(), LogResource::Failed);
    assert_eq!(
        s.add_log_entry(Event::Raw("dump".to_owned(), vec![9])),
        DiskAction::WriteFile {
            path: "/var/log/run/file_dump".to_owned(),
            data: vec![9]
        }
    );
    assert_eq!(s.get_log_entries(0, None), vec!["A", "B", "binary:dump:1"]);
}

#[test]
fn binary_first_event_is_written_after_the_log_is_resolved() {
    let mut s = session("1", 10, Instant::now());
    assert_eq!(
        s.add_log_entry(Event::Raw("dump".to_owned(), vec![0xff, 0x00])),
        DiskAction::OpenLog {
            session: "1".to_owned(),
            path: "/var/log/run/events.log".to_owned()
        }
    );
    assert_eq!(
        s.log_opened(false),
        DiskAction::WriteFile {
            path: "/var/log/run/file_dump".to_owned(),
            data: vec![0xff, 0x00]
        }
    );
    let mut open = session("2", 10, Instant::now());
    open.add_log_entry(Event::Raw("/".to_owned(), vec![1]));
    assert_eq!(
        open.log_opened(true),
        DiskAction::WriteFile {
            path: "/var/log/run/file_binary".to_owned(),
            data: vec![1]
        }
    );
    assert_eq!(open.log_opened(false), DiskAction::Idle);
    assert_eq!(open.log_resource(), LogResource::Open);
}

#[test]
fn report_without_an_event_resolves_and_writes_nothing() {
    let mut s = session("1", 10, Instant::now());
    assert_eq!(s.log_opened(true), DiskAction::Idle);
    assert_eq!(s.log_resource(), LogResource::Open);
    assert_eq!(
        s.add_log_entry(text("A")),
        DiskAction::AppendLine {
            session: "1".to_owned(),
            line: "A".to_owned()
        }
    );
}

#[test]
fn adding_an_event_refreshes_the_activity() {
    let start = Instant::now();
    let mut s = session("1", 10, start);
    let later = start + Duration::from_secs(7);
    s.add_log_entry_at(text("A"), later);
    assert_eq!(s.last_updated(), later);
    assert!(!s.is_expired(later + Duration::from_millis(9_999)));
    assert!(s.is_expired(later + Duration::from_secs(10)));
    let before = Instant::now();
    s.add_log_entry(text("B"));
    assert!(s.last_updated() >= before);
}

#[test]
fn expiry_is_at_the_timeout_in_whole_seconds() {
    let start = Instant::now();
    let s = session("1", 10, start);
    assert!(!s.is_expired(start));
    assert!(!s.is_expired(start + Duration::from_secs(9)));
    assert!(!s.is_expired(start + Duration::from_nanos(9_999_999_999)));
    assert!(s.is_expired(start + Duration::from_secs(10)));
    assert!(s.is_expired(start + Duration::from_secs(11)));
    if let Some(earlier) = start.checked_sub(Duration::from_secs(1)) {
        assert!(!s.is_expired(earlier));
    }
    let at_once = session("2", 0, start);
    assert!(at_once.is_expired(start));
    if let Some(earlier) = start.checked_sub(Duration::from_secs(1)) {
        assert!(at_once.is_expired(earlier));
    }
}

#[test]
fn session_accepts_its_secret_only() {
    let s = session("1", 10, Instant::now());
    let good = EventAuth {
        ident: "anything".to_owned(),
        signature: "\tsecret ".to_owned(),
    };
    let bad = EventAuth {
        ident: "1".to_owned(),
        signature: "Secret".to_owned(),
    };
    assert!(s.accepts(&good));
    assert!(!s.accepts(&bad));
}
