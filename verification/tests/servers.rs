use installer_webhook::auth::webhook_auth;
use installer_webhook::auth::EventAuth;
use installer_webhook::control::ControlMsgResponse;
use installer_webhook::event::buf_to_string_event;
use installer_webhook::event::raw_event;
use installer_webhook::event::text_event;
use installer_webhook::event::Event;
use installer_webhook::reply::add_event_reply;
use installer_webhook::reply::add_events_reply;
use installer_webhook::reply::create_session_reply;
use installer_webhook::reply::get_logs_reply;
use installer_webhook::reply::rejection_reply;
use installer_webhook::reply::remove_session_reply;
use installer_webhook::reply::Delivery;
use installer_webhook::reply::HttpReply;
use installer_webhook::reply::ReplyBody;

fn message(status: u16, text: &str) -> HttpReply {
    HttpReply {
        status,
        body: ReplyBody::Message(text.to_owned()),
    }
}

#[test]
fn test_auth() {
    let expected = EventAuth {
        ident: "authkey".to_owned(),
        signature: "authtoken".to_owned(),
    };

    let value = webhook_auth(
        "oauth_signature=empty,oauth_consumer_key=authkey,\
            oauth_broken=false,oauth_token=authtoken",
    );
    assert_eq!(value, expected);

    let value = webhook_auth("oauth_consumer_key=somethingelse,oauth_token=authtoken");
    assert_ne!(value, expected);
}

#[test]
fn test_body_to_event() {
    let expected = Event::Text("An event message".to_owned());

    let value = buf_to_string_event(&vec![b"An event message".to_vec()]);
    assert_eq!(value, expected);

    let value =
        buf_to_string_event(&vec![
            b"\xff\x00\xfe\x01\xfd\x02 binary test \x80\x81\x82".to_vec()
        ]);
    assert_ne!(value, expected);
}

#[test]
fn test_file_to_event() {
    let expected = Event::Raw(
        "sample".to_owned(),
        "a sample uploaded file".as_bytes().to_vec(),
    );
    assert_eq!(expected.to_string(), "binary:sample:22");
    let expected_other = Event::Raw(
        "other file".to_owned(),
        "another uploaded file".as_bytes().to_vec(),
    );
    let unexpected = Event::Raw(
        "sample".to_owned(),
        "not a sample uploaded file".as_bytes().to_vec(),
    );

    let value = vec![
        raw_event(
            "sample".to_owned(),
            &vec![b"a sample ".to_vec(), b"uploaded file".to_vec()],
        ),
        raw_event(
            "other file".to_owned(),
            &vec![b"another uploaded file".to_vec()],
        ),
    ];
    assert_eq!(value.get(0), Some(&expected));
    assert_ne!(value.get(0), Some(&unexpected));
    assert_eq!(value.get(1), Some(&expected_other));
}

#[test]
fn body_is_decoded_chunk_by_chunk() {
    assert_eq!(
        buf_to_string_event(&vec![b"\xff".to_vec()]),
        Event::Text("\u{fffd}".to_owned())
    );
    assert_eq!(
        buf_to_string_event(&vec![b"ab".to_vec(), Vec::new(), b"c\n".to_vec()]),
        Event::Text("abc\n".to_owned())
    );
    // a character that is split over two chunks is lost
    assert_eq!(
        buf_to_string_event(&vec![b"\xc3".to_vec(), b"\xa4".to_vec()]),
        Event::Text("\u{fffd}\u{fffd}".to_owned())
    );
    assert_eq!(
        buf_to_string_event(&vec![b"\xc3\xa4".to_vec()]),
        Event::Text("ä".to_owned())
    );
    assert_eq!(buf_to_string_event(&Vec::new()), Event::Text(String::new()));
    assert_eq!(
        text_event(&vec!["a".to_owned(), "".to_owned(), "bc".to_owned()]),
        Event::Text("abc".to_owned())
    );
}

#[test]
fn raw_event_of_no_chunks_is_empty() {
    assert_eq!(
        raw_event("x".to_owned(), &Vec::new()),
        Event::Raw("x".to_owned(), Vec::new())
    );
    assert_eq!(
        raw_event("x".to_owned(), &vec![vec![1, 2], Vec::new(), vec![3]]),
        Event::Raw("x".to_owned(), vec![1, 2, 3])
    );
}

#[test]
fn header_with_quotes_and_spaces() {
    let value = webhook_auth(
        "OAuth realm=\"\", oauth_consumer_key=\"ID\",  oauth_token=\"SECRET\",oauth_version=\"1.0\"",
    );
    assert_eq!(
        value,
        EventAuth {
            ident: "ID".to_owned(),
            signature: "SECRET".to_owned()
        }
    );
}

#[test]
fn header_takes_the_first_segment_of_a_key() {
    let value = webhook_auth("oauth_consumer_key=one,oauth_consumer_key=two,oauth_token=t");
    assert_eq!(value.ident, "one");
    assert_eq!(value.signature, "t");
    // a segment without a value gives none
    let value = webhook_auth("oauth_consumer_key,oauth_consumer_key=two");
    assert_eq!(value.ident, "two");
    assert_eq!(value.signature, "");
    // the value is what follows the last equals sign
    let value = webhook_auth("oauth_token=a=b=\"\"c\"\"");
    assert_eq!(value.signature, "c");
    let value = webhook_auth("oauth_token=");
    assert_eq!(value.signature, "");
    let value = webhook_auth("oauth_token_secret=\"x\"");
    assert_eq!(value.signature, "x");
}

#[test]
fn header_without_credentials() {
    let empty = EventAuth {
        ident: String::new(),
        signature: String::new(),
    };
    assert_eq!(webhook_auth(""), empty);
    assert_eq!(webhook_auth(",,,"), empty);
    assert_eq!(webhook_auth("Basic dXNlcjpwYXNz"), empty);
    assert_eq!(webhook_auth("x oauth_token=a"), empty);
    assert_eq!(webhook_auth("oauth_toke=a,oauth_consumer_ke=b"), empty);
}

#[test]
fn create_session_replies() {
    assert_eq!(
        create_session_reply(Delivery::Unavailable),
        message(500, "Session could not be started (control unavailable)")
    );
    assert_eq!(
        create_session_reply(Delivery::Answered(ControlMsgResponse::Success)),
        message(201, "Session accepted")
    );
    assert_eq!(
        create_session_reply(Delivery::Answered(ControlMsgResponse::Failure)),
        message(400, "Session could not be started")
    );
    assert_eq!(
        create_session_reply(Delivery::NoResponse),
        message(500, "Session could not be started (no response from control)")
    );
    assert_eq!(
        create_session_reply(Delivery::Answered(ControlMsgResponse::EventsData(Vec::new()))),
        message(
            500,
            "Session could not be started (wrong response from control)"
        )
    );
}

#[test]
fn remove_session_replies() {
    assert_eq!(
        remove_session_reply(Delivery::Unavailable),
        message(500, "Session could not be removed (control unavailable)")
    );
    assert_eq!(
        remove_session_reply(Delivery::Answered(ControlMsgResponse::Success)),
        message(200, "Session removed")
    );
    assert_eq!(
        remove_session_reply(Delivery::Answered(ControlMsgResponse::Failure)),
        message(404, "Session not found")
    );
    assert_eq!(
        remove_session_reply(Delivery::NoResponse),
        message(500, "Session could not be removed (no response from control)")
    );
    assert_eq!(
        remove_session_reply(Delivery::Answered(ControlMsgResponse::EventsData(Vec::new()))),
        message(
            500,
            "Session could not be started (wrong response from control)"
        )
    );
}

#[test]
fn add_event_replies() {
    assert_eq!(
        add_event_reply(Delivery::Unavailable),
        message(500, "Event could not be added (control unavailable)")
    );
    assert_eq!(
        add_event_reply(Delivery::Answered(ControlMsgResponse::Success)),
        message(200, "Event accepted")
    );
    assert_eq!(
        add_event_reply(Delivery::Answered(ControlMsgResponse::Failure)),
        message(400, "Event was not accepted")
    );
    assert_eq!(
        add_event_reply(Delivery::NoResponse),
        message(500, "Event could not be delivered (no response from control)")
    );
    assert_eq!(
        add_event_reply(Delivery::Answered(ControlMsgResponse::EventsData(Vec::new()))),
        message(
            500,
            "Event could not be delivered (wrong response from control)"
        )
    );
    assert_eq!(
        add_events_reply(vec![Delivery::Unavailable, Delivery::NoResponse]),
        message(200, "Event accepted")
    );
    assert_eq!(add_events_reply(Vec::new()), message(200, "Event accepted"));
}

#[test]
fn get_logs_replies() {
    assert_eq!(
        get_logs_reply(Delivery::Unavailable),
        message(
            500,
            "Session data could not be retrieved (control unavailable)"
        )
    );
    assert_eq!(
        get_logs_reply(Delivery::Answered(ControlMsgResponse::EventsData(vec![
            "A".to_owned(),
            "binary:dump:2".to_owned()
        ]))),
        HttpReply {
            status: 200,
            body: ReplyBody::Lines(vec!["A".to_owned(), "binary:dump:2".to_owned()])
        }
    );
    assert_eq!(
        get_logs_reply(Delivery::Answered(ControlMsgResponse::Failure)),
        message(404, "Session not found")
    );
    assert_eq!(
        get_logs_reply(Delivery::NoResponse),
        message(
            500,
            "Session data could not be retrieved (no response from control)"
        )
    );
    assert_eq!(
        get_logs_reply(Delivery::Answered(ControlMsgResponse::Success)),
        message(
            500,
            "Session data could not be retrieved (wrong response from control)"
        )
    );
    assert_eq!(rejection_reply(), message(400, "Request declined"));
}
