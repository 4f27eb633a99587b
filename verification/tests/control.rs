use installer_webhook::auth::EventAuth;
use installer_webhook::control::Control;
use installer_webhook::event::safe_filename;
use installer_webhook::event::Event;
use installer_webhook::session::DiskAction;
use installer_webhook::session::Session;
use installer_webhook::session::SessionId;
use installer_webhook::session::SessionInit;
use std::time::Duration;
use std::time::Instant;

fn make_event(timestamp: f64) -> Event {
    Event::Text(format!("event, origin, {}", timestamp))
}

fn make_raw_event(ident: String) -> Event {
    Event::Raw(
        ident,
        b"\xff\x00\xfe\x01\xfd\x02 binary event \x80\x81\x82".to_vec(),
    )
}

fn session_init(id: SessionId) -> SessionInit {
    SessionInit {
        id,
        log_path: "log_path".to_owned(),
        timeout: 10,
        secret: "secret".to_owned(),
    }
}

fn make_session(id: SessionId) -> Session {
    Session::new(session_init(id))
}

fn make_session_at(id: SessionId, last_updated: Instant) -> Session {
    Session::new_at(session_init(id), last_updated)
}

#[test]
fn session_logger() {
    let mut s = make_session("1".to_owned());
    s.add_log_entry(make_event(2.4));
    s.add_log_entry(make_event(3.6));
    assert_eq!(s.get_log_entries(0, None).len(), 2);
    assert_eq!(s.get_log_entries(0, Some(1)).len(), 1);
    assert_eq!(s.get_log_entries(1, None).len(), 1);
    assert_eq!(s.get_log_entries(2, None).len(), 0);
    s.add_log_entry(make_raw_event("dump".to_owned()));
    assert_eq!(s.get_log_entries(2, None).len(), 1);
}

#[test]
fn event_auth_verify() {
    let auth = EventAuth {
        ident: "id".to_owned(),
        signature: "something".to_owned(),
    };
    assert!(auth.verify("something"));
    assert!(!auth.verify("somethingelse"));
}

#[test]
fn control_process_event() {
    let mut control = Control::new();
    control.add_session(make_session("1".to_owned()));

    // ok
    let auth = EventAuth {
        ident: "1".to_owned(),
        signature: "secret".to_owned(),
    };
    let e = make_event(2.4);
    assert_eq!(control.process_event(e, auth).map(|_| ()), Ok(()));

    // fail wrong secret
    let auth = EventAuth {
        ident: "404".to_owned(),
        signature: "something".to_owned(),
    };
    let e = make_event(6.5);
    assert_ne!(control.process_event(e, auth).map(|_| ()), Ok(()));
}

#[test]
fn control_cleanup() {
    let mut control = Control::new();
    let now = Instant::now();

    // Create three sessions and start cleaning up
    let s = make_session_at("1".to_owned(), now);
    assert_eq!(s.timeout(), 10); // our expectation for default sessions in this test: timeout = 10 seconds
    control.add_session(s);

    let s = make_session_at(
        "2".to_owned(),
        now.checked_sub(Duration::from_secs(5)).unwrap(),
    );
    control.add_session(s);

    let s = make_session_at(
        "3".to_owned(),
        now.checked_sub(Duration::from_secs(15)).unwrap(),
    );
    control.add_session(s);

    assert_eq!(
        control.cleanup(now.checked_sub(Duration::from_secs(120))),
        0
    ); // does not panic on time in past
    assert_eq!(control.len(), 3);
    assert_eq!(control.cleanup(None), 1); // remove last one
    assert_eq!(control.len(), 2);
    assert_eq!(control.cleanup(now.checked_add(Duration::from_secs(3))), 0); // keep second; only 8 seconds passed
    assert_eq!(control.len(), 2);
    assert_eq!(control.cleanup(now.checked_add(Duration::from_secs(7))), 1); // remove second
    assert_eq!(control.len(), 1);
    assert_eq!(
        control.cleanup(now.checked_add(Duration::from_secs(120))),
        1
    ); // remove first
    assert_eq!(control.len(), 0);
}

#[test]
fn filenames() {
    assert_eq!(safe_filename("message-log.txt"), "file_message-log.txt");
    assert_eq!(safe_filename("/any/dir/"), "file_binary");
    assert_eq!(safe_filename("./.."), "file_..");
    assert_eq!(safe_filename(".."), "file_..");
    assert_eq!(safe_filename("../../../etc/passwd"), "file_passwd");
    assert_eq!(
        safe_filename("/var/log/messages.tar.gz"),
        "file_messages.tar.gz"
    );
}

#[test]
fn filename_of_empty_identifier() {
    assert_eq!(safe_filename(""), "file_binary");
    assert_eq!(safe_filename("/"), "file_binary");
    assert_eq!(safe_filename("a/b/"), "file_binary");
    assert_eq!(safe_filename("päth/ünïcode"), "file_ünïcode");
}

#[test]
fn process_event_says_why_it_failed() {
    let mut control = Control::new();
    control.add_session(make_session("1".to_owned()));
    let unknown = EventAuth {
        ident: "404".to_owned(),
        signature: "secret".to_owned(),
    };
    assert_eq!(
        control.process_event(make_event(1.0), unknown),
        Err("Session ident expired or non-existing".to_owned())
    );
    let wrong = EventAuth {
        ident: "1".to_owned(),
        signature: "something".to_owned(),
    };
    assert_eq!(
        control.process_event(make_event(1.0), wrong),
        Err("Invalid authorization token".to_owned())
    );
    assert_eq!(
        control.get_event_list("1".to_owned(), 0, 0),
        Ok(Vec::<String>::new())
    );
    assert_eq!(control.len(), 1);
}

#[test]
fn process_event_asks_to_open_the_log_first() {
    let mut control = Control::new();
    control.add_session(make_session("1".to_owned()));
    let auth = EventAuth {
        ident: "1".to_owned(),
        signature: " secret\n".to_owned(),
    };
    assert_eq!(
        control.process_event(Event::Text("A".to_owned()), auth),
        Ok(DiskAction::OpenLog {
            session: "1".to_owned(),
            path: "log_path/events.log".to_owned()
        })
    );
}

#[test]
fn verify_trims_white_space() {
    let auth = EventAuth {
        ident: "id".to_owned(),
        signature: "  some thing\t\n".to_owned(),
    };
    assert!(auth.verify("some thing"));
    assert!(auth.verify("\u{a0}some thing\u{2003}"));
    assert!(!auth.verify("something"));
    assert!(!auth.verify("some  thing"));
    assert!(!auth.verify(""));
    let empty = EventAuth {
        ident: "id".to_owned(),
        signature: " \n ".to_owned(),
    };
    assert!(empty.verify(""));
    assert!(empty.verify("\t"));
    assert!(!empty.verify("x"));
}
