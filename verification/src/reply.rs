//! What a caller is told about a request, by how its delivery to control went.

use crate::control::ControlMsgResponse;
use crate::control::ResponseView;
use vstd::prelude::*;

verus! {

/// Status 200.
pub const OK: u16 = 200;

/// Status 201.
pub const CREATED: u16 = 201;

/// Status 400.
pub const BAD_REQUEST: u16 = 400;

/// Status 404.
pub const NOT_FOUND: u16 = 404;

/// Status 500.
pub const INTERNAL_SERVER_ERROR: u16 = 500;

/// The requests that are passed on to control.
#[derive(Clone, Copy, Debug, PartialEq, Eq)]
pub enum Request {
    CreateSession,
    RemoveSession,
    AddEvent,
    GetLogs,
}

/// How the delivery of a request to control went.
#[derive(Debug)]
pub enum Delivery {
    /// Control did not take the message: its queue is full or closed.
    Unavailable,
    /// Control took the message and went away without a response.
    NoResponse,
    /// Control responded.
    Answered(ControlMsgResponse),
}

/// What a [`Delivery`] holds.
pub enum DeliveryView {
    Unavailable,
    NoResponse,
    Answered(ResponseView),
}

impl View for Delivery {
    type V = DeliveryView;

    open spec fn view(&self) -> DeliveryView {
        match self {
            Delivery::Unavailable => DeliveryView::Unavailable,
            Delivery::NoResponse => DeliveryView::NoResponse,
            Delivery::Answered(response) => DeliveryView::Answered(response@),
        }
    }
}

/// The body of a reply.
#[derive(Debug, PartialEq, Eq)]
pub enum ReplyBody {
    /// A message for the reader.
    Message(String),
    /// Rendered events, one string each.
    Lines(Vec<String>),
}

/// What a [`ReplyBody`] holds.
pub enum ReplyBodyView {
    Message(Seq<char>),
    Lines(Seq<Seq<char>>),
}

impl View for ReplyBody {
    type V = ReplyBodyView;

    open spec fn view(&self) -> ReplyBodyView {
        match self {
            ReplyBody::Message(text) => ReplyBodyView::Message(text@),
            ReplyBody::Lines(lines) => ReplyBodyView::Lines(lines.deep_view()),
        }
    }
}

/// A reply: a status code and a body.
#[derive(Debug, PartialEq, Eq)]
pub struct HttpReply {
    pub status: u16,
    pub body: ReplyBody,
}

/// What an [`HttpReply`] holds.
pub struct HttpReplyView {
    pub status: u16,
    pub body: ReplyBodyView,
}

impl View for HttpReply {
    type V = HttpReplyView;

    open spec fn view(&self) -> HttpReplyView {
        HttpReplyView { status: self.status, body: self.body@ }
    }
}

/// A reply that holds a message.
pub open spec fn message(status: u16, text: Seq<char>) -> HttpReplyView {
    HttpReplyView { status, body: ReplyBodyView::Message(text) }
}

/// The reply to a request to create a session.
pub open spec fn create_session_outcome(delivery: DeliveryView) -> HttpReplyView {
    match delivery {
        DeliveryView::Unavailable => message(
            INTERNAL_SERVER_ERROR,
            "Session could not be started (control unavailable)"@,
        ),
        DeliveryView::Answered(ResponseView::Success) => message(CREATED, "Session accepted"@),
        DeliveryView::Answered(ResponseView::Failure) => message(
            BAD_REQUEST,
            "Session could not be started"@,
        ),
        DeliveryView::NoResponse => message(
            INTERNAL_SERVER_ERROR,
            "Session could not be started (no response from control)"@,
        ),
        DeliveryView::Answered(ResponseView::EventsData(_)) => message(
            INTERNAL_SERVER_ERROR,
            "Session could not be started (wrong response from control)"@,
        ),
    }
}

/// The reply to a request to remove a session.
pub open spec fn remove_session_outcome(delivery: DeliveryView) -> HttpReplyView {
    match delivery {
        DeliveryView::Unavailable => message(
            INTERNAL_SERVER_ERROR,
            "Session could not be removed (control unavailable)"@,
        ),
        DeliveryView::Answered(ResponseView::Success) => message(OK, "Session removed"@),
        DeliveryView::Answered(ResponseView::Failure) => message(NOT_FOUND, "Session not found"@),
        DeliveryView::NoResponse => message(
            INTERNAL_SERVER_ERROR,
            "Session could not be removed (no response from control)"@,
        ),
        DeliveryView::Answered(ResponseView::EventsData(_)) => message(
            INTERNAL_SERVER_ERROR,
            "Session could not be started (wrong response from control)"@,
        ),
    }
}

/// The reply to a request to add an event.
pub open spec fn add_event_outcome(delivery: DeliveryView) -> HttpReplyView {
    match delivery {
        DeliveryView::Unavailable => message(
            INTERNAL_SERVER_ERROR,
            "Event could not be added (control unavailable)"@,
        ),
        DeliveryView::Answered(ResponseView::Success) => message(OK, "Event accepted"@),
        DeliveryView::Answered(ResponseView::Failure) => message(
            BAD_REQUEST,
            "Event was not accepted"@,
        ),
        DeliveryView::NoResponse => message(
            INTERNAL_SERVER_ERROR,
            "Event could not be delivered (no response from control)"@,
        ),
        DeliveryView::Answered(ResponseView::EventsData(_)) => message(
            INTERNAL_SERVER_ERROR,
            "Event could not be delivered (wrong response from control)"@,
        ),
    }
}

/// The reply to a request for the events of a session.
pub open spec fn get_logs_outcome(delivery: DeliveryView) -> HttpReplyView {
    match delivery {
        DeliveryView::Unavailable => message(
            INTERNAL_SERVER_ERROR,
            "Session data could not be retrieved (control unavailable)"@,
        ),
        DeliveryView::Answered(ResponseView::EventsData(lines)) => HttpReplyView {
            status: OK,
            body: ReplyBodyView::Lines(lines),
        },
        DeliveryView::Answered(ResponseView::Failure) => message(NOT_FOUND, "Session not found"@),
        DeliveryView::NoResponse => message(
            INTERNAL_SERVER_ERROR,
            "Session data could not be retrieved (no response from control)"@,
        ),
        DeliveryView::Answered(ResponseView::Success) => message(
            INTERNAL_SERVER_ERROR,
            "Session data could not be retrieved (wrong response from control)"@,
        ),
    }
}

/// The reply to `request`, by how its delivery went.
pub open spec fn outcome(request: Request, delivery: DeliveryView) -> HttpReplyView {
    match request {
        Request::CreateSession => create_session_outcome(delivery),
        Request::RemoveSession => remove_session_outcome(delivery),
        Request::AddEvent => add_event_outcome(delivery),
        Request::GetLogs => get_logs_outcome(delivery),
    }
}

/// Whether control gave the response that fulfils `request`.
pub open spec fn fulfilled(request: Request, delivery: DeliveryView) -> bool {
    match request {
        Request::GetLogs => delivery matches DeliveryView::Answered(ResponseView::EventsData(_)),
        _ => delivery == DeliveryView::Answered(ResponseView::Success),
    }
}

/// A reply is in the 200s exactly where control fulfilled the request. A
/// request that control refused gets a status in the 400s, and one that
/// control did not take, did not answer, or answered with a response of
/// another kind gets 500.
pub proof fn lemma_status_tells_what_happened(request: Request, delivery: DeliveryView)
    ensures
        200 <= outcome(request, delivery).status < 300 <==> fulfilled(request, delivery),
        delivery == DeliveryView::Answered(ResponseView::Failure) ==> 400 <= outcome(
            request,
            delivery,
        ).status < 500,
        !fulfilled(request, delivery) && delivery != DeliveryView::Answered(ResponseView::Failure)
            ==> outcome(request, delivery).status == INTERNAL_SERVER_ERROR,
{
}

/// A reply with the status `status` and the message `text`.
fn message_reply(status: u16, text: &str) -> (reply: HttpReply)
    ensures
        reply@ == message(status, text@),
{
    HttpReply { status, body: ReplyBody::Message(text.to_owned()) }
}

/// The reply to a request to create a session.
pub fn create_session_reply(delivery: Delivery) -> (reply: HttpReply)
    ensures
        reply@ == create_session_outcome(delivery@),
{
    match delivery {
        Delivery::Unavailable => message_reply(
            INTERNAL_SERVER_ERROR,
            "Session could not be started (control unavailable)",
        ),
        Delivery::Answered(ControlMsgResponse::Success) => message_reply(
            CREATED,
            "Session accepted",
        ),
        Delivery::Answered(ControlMsgResponse::Failure) => message_reply(
            BAD_REQUEST,
            "Session could not be started",
        ),
        Delivery::NoResponse => message_reply(
            INTERNAL_SERVER_ERROR,
            "Session could not be started (no response from control)",
        ),
        Delivery::Answered(ControlMsgResponse::EventsData(_)) => message_reply(
            INTERNAL_SERVER_ERROR,
            "Session could not be started (wrong response from control)",
        ),
    }
}

/// The reply to a request to remove a session.
pub fn remove_session_reply(delivery: Delivery) -> (reply: HttpReply)
    ensures
        reply@ == remove_session_outcome(delivery@),
{
    match delivery {
        Delivery::Unavailable => message_reply(
            INTERNAL_SERVER_ERROR,
            "Session could not be removed (control unavailable)",
        ),
        Delivery::Answered(ControlMsgResponse::Success) => message_reply(OK, "Session removed"),
        Delivery::Answered(ControlMsgResponse::Failure) => message_reply(
            NOT_FOUND,
            "Session not found",
        ),
        Delivery::NoResponse => message_reply(
            INTERNAL_SERVER_ERROR,
            "Session could not be removed (no response from control)",
        ),
        Delivery::Answered(ControlMsgResponse::EventsData(_)) => message_reply(
            INTERNAL_SERVER_ERROR,
            "Session could not be started (wrong response from control)",
        ),
    }
}

/// The reply to a request to add an event.
pub fn add_event_reply(delivery: Delivery) -> (reply: HttpReply)
    ensures
        reply@ == add_event_outcome(delivery@),
{
    match delivery {
        Delivery::Unavailable => message_reply(
            INTERNAL_SERVER_ERROR,
            "Event could not be added (control unavailable)",
        ),
        Delivery::Answered(ControlMsgResponse::Success) => message_reply(OK, "Event accepted"),
        Delivery::Answered(ControlMsgResponse::Failure) => message_reply(
            BAD_REQUEST,
            "Event was not accepted",
        ),
        Delivery::NoResponse => message_reply(
            INTERNAL_SERVER_ERROR,
            "Event could not be delivered (no response from control)",
        ),
        Delivery::Answered(ControlMsgResponse::EventsData(_)) => message_reply(
            INTERNAL_SERVER_ERROR,
            "Event could not be delivered (wrong response from control)",
        ),
    }
}

/// The reply to a request that added several events, one delivery each:
/// status 200, whatever became of the deliveries.
pub fn add_events_reply(deliveries: Vec<Delivery>) -> (reply: HttpReply)
    ensures
        reply@ == message(OK, "Event accepted"@),
{
    message_reply(OK, "Event accepted")
}

/// The reply to a request for the events of a session.
pub fn get_logs_reply(delivery: Delivery) -> (reply: HttpReply)
    ensures
        reply@ == get_logs_outcome(delivery@),
{
    match delivery {
        Delivery::Unavailable => message_reply(
            INTERNAL_SERVER_ERROR,
            "Session data could not be retrieved (control unavailable)",
        ),
        Delivery::Answered(ControlMsgResponse::EventsData(log)) => HttpReply {
            status: OK,
            body: ReplyBody::Lines(log),
        },
        Delivery::Answered(ControlMsgResponse::Failure) => message_reply(
            NOT_FOUND,
            "Session not found",
        ),
        Delivery::NoResponse => message_reply(
            INTERNAL_SERVER_ERROR,
            "Session data could not be retrieved (no response from control)",
        ),
        Delivery::Answered(ControlMsgResponse::Success) => message_reply(
            INTERNAL_SERVER_ERROR,
            "Session data could not be retrieved (wrong response from control)",
        ),
    }
}

/// The reply to a request that was turned down before it reached control.
pub fn rejection_reply() -> (reply: HttpReply)
    ensures
        reply@ == message(BAD_REQUEST, "Request declined"@),
{
    message_reply(BAD_REQUEST, "Request declined")
}

} // verus!
