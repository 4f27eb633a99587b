//! Session control: the registry of sessions and the messages that act on it.
//!
//! The registry has one owner, which handles one message at a time; that is
//! all the protection its state has and needs.

use crate::auth::signature_matches;
use crate::auth::EventAuth;
use crate::event::Event;
use crate::session::DiskAction;
use crate::session::DiskActionView;
use crate::session::Session;
use crate::session::SessionId;
use crate::session::SessionInit;
use crate::session::SessionView;
use std::time::Instant;
use vstd::prelude::*;

verus! {

/// Messages passed to control.
#[derive(Debug)]
pub enum ControlMsg {
    /// Start a session, in place of any session of the same identifier.
    CreateSession(SessionInit),
    /// End a session.
    RemoveSession(SessionId),
    /// Add an event to the session that the credentials name.
    AddEvent(Event, EventAuth),
    /// Read the events of a session with a sequence number from
    /// `first_entry` up to `last_entry`; a `last_entry` of zero stands for
    /// the end of the log.
    GetEvents { session_id: SessionId, first_entry: usize, last_entry: usize },
    /// Purge the sessions that have been idle for their timeout or longer.
    Cleanup,
    /// Stop handling messages.
    Shutdown,
}

impl ControlMsg {
    /// The name of the kind of message.
    pub fn get_type(&self) -> (name: &'static str)
        ensures
            name@ == match self {
                ControlMsg::CreateSession(_) => "CreateSession"@,
                ControlMsg::RemoveSession(_) => "RemoveSession"@,
                ControlMsg::AddEvent(_, _) => "AddEvent"@,
                ControlMsg::GetEvents { .. } => "GetEvents"@,
                ControlMsg::Cleanup => "Cleanup"@,
                ControlMsg::Shutdown => "Shutdown"@,
            },
    {
        match self {
            ControlMsg::CreateSession(_) => "CreateSession",
            ControlMsg::RemoveSession(_) => "RemoveSession",
            ControlMsg::AddEvent(_, _) => "AddEvent",
            ControlMsg::GetEvents { session_id: _, first_entry: _, last_entry: _ } => "GetEvents",
            ControlMsg::Cleanup => "Cleanup",
            ControlMsg::Shutdown => "Shutdown",
        }
    }
}

/// Responses from control.
#[derive(Debug, PartialEq, Eq)]
pub enum ControlMsgResponse {
    Success,
    Failure,
    /// The rendered events that were asked for.
    EventsData(Vec<String>),
}

/// What a [`ControlMsgResponse`] holds.
pub enum ResponseView {
    Success,
    Failure,
    EventsData(Seq<Seq<char>>),
}

impl View for ControlMsgResponse {
    type V = ResponseView;

    open spec fn view(&self) -> ResponseView {
        match self {
            ControlMsgResponse::Success => ResponseView::Success,
            ControlMsgResponse::Failure => ResponseView::Failure,
            ControlMsgResponse::EventsData(lines) => ResponseView::EventsData(lines.deep_view()),
        }
    }
}

/// The sessions of a registry by their identifiers.
pub type Registry = Map<Seq<char>, SessionView>;

/// The error for an event or a query that names no session of the registry.
pub open spec fn no_such_session() -> Seq<char> {
    "Session ident expired or non-existing"@
}

/// The error for an event that does not present its session's secret.
pub open spec fn bad_signature() -> Seq<char> {
    "Invalid authorization token"@
}

/// Whether an event with the credentials `auth` is accepted: its session
/// exists and it presents that session's secret.
pub open spec fn accepted(registry: Registry, auth: EventAuth) -> bool {
    registry.contains_key(auth.ident@) && signature_matches(
        auth.signature@,
        registry[auth.ident@].secret,
    )
}

/// The sessions that a sweep at the time `now` leaves: those that have been
/// idle for less than their timeout.
pub open spec fn retained(registry: Registry, now: Instant) -> Registry {
    Map::new(
        |id: Seq<char>| registry.contains_key(id) && !registry[id].expired(now),
        |id: Seq<char>| registry[id],
    )
}

/// The end of the range that a query asks for: none where `last_entry` is zero.
pub open spec fn range_end(last_entry: usize) -> Option<usize> {
    if last_entry == 0 {
        None
    } else {
        Some(last_entry)
    }
}

/// What handling one message comes to.
pub struct Step {
    /// The registry afterwards.
    pub registry: Registry,
    /// The response, or the end of message handling.
    pub response: Result<ResponseView, ()>,
    /// What the disk is asked to do.
    pub disk: DiskActionView,
}

/// What handling `message` at the time `now` comes to, on a given registry.
pub open spec fn step(registry: Registry, message: ControlMsg, now: Instant) -> Step {
    match message {
        ControlMsg::CreateSession(init) => Step {
            registry: registry.insert(init.id@, SessionView::fresh(init, now)),
            response: Ok(ResponseView::Success),
            disk: DiskActionView::Idle,
        },
        ControlMsg::RemoveSession(id) => Step {
            registry: registry.remove(id@),
            response: Ok(
                if registry.contains_key(id@) {
                    ResponseView::Success
                } else {
                    ResponseView::Failure
                },
            ),
            disk: DiskActionView::Idle,
        },
        ControlMsg::AddEvent(event, auth) => if accepted(registry, auth) {
            let session = registry[auth.ident@].extended(event@, now);
            Step {
                registry: registry.insert(auth.ident@, session),
                response: Ok(ResponseView::Success),
                disk: session.disk_action(),
            }
        } else {
            Step { registry, response: Ok(ResponseView::Failure), disk: DiskActionView::Idle }
        },
        ControlMsg::GetEvents { session_id, first_entry, last_entry } => Step {
            registry,
            response: Ok(
                if registry.contains_key(session_id@) {
                    ResponseView::EventsData(
                        registry[session_id@].entries(first_entry, range_end(last_entry)),
                    )
                } else {
                    ResponseView::Failure
                },
            ),
            disk: DiskActionView::Idle,
        },
        ControlMsg::Cleanup => Step {
            registry: retained(registry, now),
            response: Ok(ResponseView::Success),
            disk: DiskActionView::Idle,
        },
        ControlMsg::Shutdown => Step { registry, response: Err(()), disk: DiskActionView::Idle },
    }
}

/// Whether a response, as control gave it, is the one that `response` describes.
pub open spec fn responds(given: Result<ControlMsgResponse, ()>, response: Result<ResponseView, ()>) -> bool {
    match given {
        Ok(given) => response == Ok::<ResponseView, ()>(given@),
        Err(_) => response is Err,
    }
}

/// Whether control went from `before` to `after`, with the given response
/// and request to the disk, as handling `message` at the time `now` does.
pub open spec fn stepped(
    before: Registry,
    message: ControlMsg,
    now: Instant,
    after: Registry,
    given: Result<ControlMsgResponse, ()>,
    disk: DiskAction,
) -> bool {
    &&& after == step(before, message, now).registry
    &&& responds(given, step(before, message, now).response)
    &&& disk@ == step(before, message, now).disk
}

/// Whether a sweep at the time `now` leads from `before` to `after`.
pub open spec fn swept(before: Registry, now: Instant, after: Registry) -> bool {
    after == retained(before, now)
}

/// A message and the time at which it is handled.
pub struct Timed {
    pub message: ControlMsg,
    pub at: Instant,
}

/// The registry after each of `messages` was handled in turn.
pub open spec fn run(registry: Registry, messages: Seq<Timed>) -> Registry
    decreases messages.len(),
{
    if messages.len() == 0 {
        registry
    } else {
        step(run(registry, messages.drop_last()), messages.last().message, messages.last().at).registry
    }
}

/// Whether `message` is an event for the session `id` that presents `secret`.
pub open spec fn event_for(message: ControlMsg, id: Seq<char>, secret: Seq<char>) -> bool {
    match message {
        ControlMsg::AddEvent(_, auth) => auth.ident@ == id && signature_matches(
            auth.signature@,
            secret,
        ),
        _ => false,
    }
}

/// What the event of `message` renders as; the empty string for a message
/// that is no event.
pub open spec fn rendered_event(message: ControlMsg) -> Seq<char> {
    match message {
        ControlMsg::AddEvent(event, _) => event@.rendered(),
        _ => Seq::empty(),
    }
}

/// After any sequence of accepted events for one session, a query for all
/// entries of that session returns what was there before and then exactly
/// those events, rendered, in the order of the calls.
pub proof fn lemma_accepted_events_are_read_back(
    registry: Registry,
    id: SessionId,
    messages: Seq<Timed>,
    now: Instant,
)
    requires
        registry.contains_key(id@),
        registry[id@].log.len() + messages.len() <= usize::MAX,
        forall|k: int|
            0 <= k < messages.len() ==> event_for(
                (#[trigger] messages[k]).message,
                id@,
                registry[id@].secret,
            ),
    ensures
        run(registry, messages).contains_key(id@),
        run(registry, messages)[id@].secret == registry[id@].secret,
        run(registry, messages)[id@].log.len() == registry[id@].log.len() + messages.len(),
        step(
            run(registry, messages),
            ControlMsg::GetEvents { session_id: id, first_entry: 0, last_entry: 0 },
            now,
        ).response == Ok::<ResponseView, ()>(
            ResponseView::EventsData(
                registry[id@].entries(0, None) + messages.map_values(
                    |m: Timed| rendered_event(m.message),
                ),
            ),
        ),
    decreases messages.len(),
{
    let render = |e: crate::event::EventView| e.rendered();
    if messages.len() == 0 {
        assert(messages.map_values(|m: Timed| rendered_event(m.message)) =~= Seq::empty());
        assert(registry[id@].entries(0, None) + Seq::<Seq<char>>::empty()
            =~= registry[id@].entries(0, None));
    } else {
        let earlier = messages.drop_last();
        let last = messages.last();
        lemma_accepted_events_are_read_back(registry, id, earlier, now);
        let before = run(registry, earlier);
        let after = run(registry, messages);
        assert(event_for(last.message, id@, registry[id@].secret));
        assert(after[id@].log == before[id@].log.push(last.message->AddEvent_0@));
        let old_lines = registry[id@].entries(0, None) + earlier.map_values(
            |m: Timed| rendered_event(m.message),
        );
        assert(before[id@].entries(0, None) == old_lines);
        assert(before[id@].log.len() > 0 ==> before[id@].log.subrange(
            0,
            before[id@].log.len() as int,
        ) =~= before[id@].log);
        assert(after[id@].log.subrange(0, after[id@].log.len() as int) =~= after[id@].log);
        assert(after[id@].log.map_values(render) =~= before[id@].entries(0, None).push(
            rendered_event(last.message),
        ));
        assert(after[id@].entries(0, None) =~= registry[id@].entries(0, None)
            + messages.map_values(|m: Timed| rendered_event(m.message)));
    }
}

/// Whether each session of the registry is filed under its own identifier.
pub open spec fn keyed(registry: Registry) -> bool {
    forall|id: Seq<char>| registry.contains_key(id) ==> (#[trigger] registry[id]).id == id
}

/// An event with a wrong signature is refused and leaves every session, the
/// one it names too, as it was.
pub proof fn lemma_wrong_signature_changes_nothing(
    registry: Registry,
    event: Event,
    auth: EventAuth,
    now: Instant,
)
    requires
        registry.contains_key(auth.ident@),
        !signature_matches(auth.signature@, registry[auth.ident@].secret),
    ensures
        step(registry, ControlMsg::AddEvent(event, auth), now).registry == registry,
        step(registry, ControlMsg::AddEvent(event, auth), now).response == Ok::<ResponseView, ()>(
            ResponseView::Failure,
        ),
        step(registry, ControlMsg::AddEvent(event, auth), now).disk == DiskActionView::Idle,
{
}

/// An event for an unknown session is refused and creates nothing.
pub proof fn lemma_unknown_session_creates_nothing(
    registry: Registry,
    event: Event,
    auth: EventAuth,
    now: Instant,
)
    requires
        !registry.contains_key(auth.ident@),
    ensures
        step(registry, ControlMsg::AddEvent(event, auth), now).registry == registry,
        step(registry, ControlMsg::AddEvent(event, auth), now).response == Ok::<ResponseView, ()>(
            ResponseView::Failure,
        ),
        step(registry, ControlMsg::AddEvent(event, auth), now).disk == DiskActionView::Idle,
{
}

/// An accepted event is added to the end of the log of the session it
/// names, which counts as active from then on; no other session changes.
pub proof fn lemma_accepted_event_is_logged(
    registry: Registry,
    event: Event,
    auth: EventAuth,
    now: Instant,
)
    requires
        accepted(registry, auth),
    ensures
        step(registry, ControlMsg::AddEvent(event, auth), now).response == Ok::<ResponseView, ()>(
            ResponseView::Success,
        ),
        step(registry, ControlMsg::AddEvent(event, auth), now).registry.dom() == registry.dom(),
        step(registry, ControlMsg::AddEvent(event, auth), now).registry[auth.ident@].log
            == registry[auth.ident@].log.push(event@),
        step(registry, ControlMsg::AddEvent(event, auth), now).registry[auth.ident@].last_updated
            == now,
        forall|id: Seq<char>|
            registry.contains_key(id) && id != auth.ident@ ==> #[trigger] step(
                registry,
                ControlMsg::AddEvent(event, auth),
                now,
            ).registry[id] == registry[id],
{
    assert(registry.insert(auth.ident@, registry[auth.ident@].extended(event@, now)).dom()
        =~= registry.dom());
}

/// A sweep removes exactly the sessions that have been idle for their
/// timeout or longer, and leaves the others as they were. A session that has
/// been idle for exactly its timeout is removed; one second short of it, it
/// stays.
pub proof fn lemma_sweep_removes_exactly_the_idle(registry: Registry, now: Instant, id: Seq<char>)
    ensures
        retained(registry, now).contains_key(id) <==> registry.contains_key(id)
            && crate::clock::idle_seconds(now, registry[id].last_updated) < registry[id].timeout,
        retained(registry, now).contains_key(id) ==> retained(registry, now)[id] == registry[id],
        registry.contains_key(id) && crate::clock::idle_seconds(now, registry[id].last_updated)
            == registry[id].timeout ==> !retained(registry, now).contains_key(id),
        registry.contains_key(id) && crate::clock::idle_seconds(now, registry[id].last_updated) + 1
            == registry[id].timeout ==> retained(registry, now).contains_key(id),
{
}

/// Creating a session under an identifier that is in use replaces the
/// session that was there: the new one starts with an empty log and an
/// unresolved log file. The other sessions stay, and the response is
/// `Success` in every case.
pub proof fn lemma_create_replaces(registry: Registry, init: SessionInit, now: Instant)
    ensures
        step(registry, ControlMsg::CreateSession(init), now).response == Ok::<ResponseView, ()>(
            ResponseView::Success,
        ),
        step(registry, ControlMsg::CreateSession(init), now).registry.contains_key(init.id@),
        step(registry, ControlMsg::CreateSession(init), now).registry[init.id@]
            == SessionView::fresh(init, now),
        step(registry, ControlMsg::CreateSession(init), now).registry[init.id@].log.len() == 0,
        forall|id: Seq<char>|
            id != init.id@ ==> (#[trigger] step(
                registry,
                ControlMsg::CreateSession(init),
                now,
            ).registry.contains_key(id) <==> registry.contains_key(id)),
        forall|id: Seq<char>|
            id != init.id@ && registry.contains_key(id) ==> #[trigger] step(
                registry,
                ControlMsg::CreateSession(init),
                now,
            ).registry[id] == registry[id],
{
}

/// Whether `message` is one that puts a session under the identifier `id`.
pub open spec fn creates(message: ControlMsg, id: Seq<char>) -> bool {
    match message {
        ControlMsg::CreateSession(init) => init.id@ == id,
        _ => false,
    }
}

/// Whether `message` is an event that the session `id` of the registry accepts.
pub open spec fn adds_to(registry: Registry, message: ControlMsg, id: Seq<char>) -> bool {
    match message {
        ControlMsg::AddEvent(_, auth) => auth.ident@ == id && accepted(registry, auth),
        _ => false,
    }
}

/// Whatever the message, a session that is not replaced keeps its identity,
/// its secret, its timeout and its directory, and its log only grows at the
/// end. Its time of last activity and its log change with an accepted event
/// for it and with nothing else.
pub proof fn lemma_sessions_are_stable(
    registry: Registry,
    message: ControlMsg,
    now: Instant,
    id: Seq<char>,
)
    requires
        registry.contains_key(id),
        step(registry, message, now).registry.contains_key(id),
        !creates(message, id),
    ensures
        step(registry, message, now).registry[id].id == registry[id].id,
        step(registry, message, now).registry[id].secret == registry[id].secret,
        step(registry, message, now).registry[id].timeout == registry[id].timeout,
        step(registry, message, now).registry[id].log_path == registry[id].log_path,
        step(registry, message, now).registry[id].log_resource == registry[id].log_resource,
        registry[id].log.is_prefix_of(step(registry, message, now).registry[id].log),
        !adds_to(registry, message, id) ==> step(registry, message, now).registry[id]
            == registry[id],
{
}

/// Each session stays filed under its own identifier, whatever the message.
pub proof fn lemma_step_keeps_sessions_keyed(registry: Registry, message: ControlMsg, now: Instant)
    requires
        keyed(registry),
    ensures
        keyed(step(registry, message, now).registry),
{
    let next = step(registry, message, now).registry;
    assert forall|id: Seq<char>| next.contains_key(id) implies (#[trigger] next[id]).id == id by {
        if registry.contains_key(id) {
            assert(registry[id].id == id);
        }
    }
}

/// The only message without a response is `Shutdown`, and it changes nothing.
pub proof fn lemma_only_shutdown_ends(registry: Registry, message: ControlMsg, now: Instant)
    ensures
        step(registry, message, now).response is Err <==> message is Shutdown,
        message is Shutdown ==> step(registry, message, now).registry == registry,
{
}

/// No two of the sessions have the same identifier.
spec fn distinct(sessions: Seq<Session>) -> bool {
    forall|i: int, j: int|
        0 <= i < j < sessions.len() ==> (#[trigger] sessions[i])@.id != (#[trigger] sessions[j])@.id
}

/// Whether one of the sessions has the identifier `id`.
spec fn listed(sessions: Seq<Session>, id: Seq<char>) -> bool {
    exists|i: int| 0 <= i < sessions.len() && (#[trigger] sessions[i])@.id == id
}

/// Where a session of the identifier `id` stands.
spec fn place(sessions: Seq<Session>, id: Seq<char>) -> int {
    choose|i: int| 0 <= i < sessions.len() && (#[trigger] sessions[i])@.id == id
}

/// The sessions by their identifiers.
spec fn registry_of(sessions: Seq<Session>) -> Registry {
    Map::new(|id: Seq<char>| listed(sessions, id), |id: Seq<char>| sessions[place(sessions, id)]@)
}

/// Each of the sessions is filed under its identifier.
proof fn lemma_registry(sessions: Seq<Session>)
    requires
        distinct(sessions),
    ensures
        forall|i: int|
            0 <= i < sessions.len() ==> registry_of(sessions).contains_key(
                (#[trigger] sessions[i])@.id,
            ) && registry_of(sessions)[sessions[i]@.id] == sessions[i]@,
{
    assert forall|i: int| 0 <= i < sessions.len() implies registry_of(sessions).contains_key(
        (#[trigger] sessions[i])@.id,
    ) && registry_of(sessions)[sessions[i]@.id] == sessions[i]@ by {
        let id = sessions[i]@.id;
        assert(listed(sessions, id));
        let k = place(sessions, id);
        assert(sessions[k]@.id == id);
        if k < i {
            assert(sessions[k]@.id != sessions[i]@.id);
        } else if i < k {
            assert(sessions[i]@.id != sessions[k]@.id);
        }
    }
}

/// A session of a new identifier at the end is one more entry of the registry.
proof fn lemma_registry_push(sessions: Seq<Session>, session: Session)
    requires
        distinct(sessions),
        !listed(sessions, session@.id),
    ensures
        distinct(sessions.push(session)),
        registry_of(sessions.push(session)) == registry_of(sessions).insert(
            session@.id,
            session@,
        ),
{
    let longer = sessions.push(session);
    assert forall|i: int, j: int| 0 <= i < j < longer.len() implies (#[trigger] longer[i])@.id != (
    #[trigger] longer[j])@.id by {
        if j == sessions.len() {
            assert(longer[i] == sessions[i]);
        } else {
            assert(longer[i] == sessions[i] && longer[j] == sessions[j]);
        }
    }
    lemma_registry(sessions);
    lemma_registry(longer);
    let a = registry_of(longer);
    let b = registry_of(sessions).insert(session@.id, session@);
    assert forall|id: Seq<char>| a.contains_key(id) == b.contains_key(id) by {
        if a.contains_key(id) {
            let k = place(longer, id);
            if k < sessions.len() {
                assert(sessions[k] == longer[k]);
            }
        }
        if b.contains_key(id) {
            if id == session@.id {
                assert(longer[sessions.len() as int] == session);
            } else {
                let k = place(sessions, id);
                assert(longer[k] == sessions[k]);
            }
        }
    }
    assert forall|id: Seq<char>| a.contains_key(id) implies a[id] == b[id] by {
        let k = place(longer, id);
        if k < sessions.len() {
            assert(sessions[k] == longer[k]);
        } else {
            assert(longer[k] == session);
        }
    }
    assert(a =~= b);
}

/// Moving the last session to the place `i` takes the session that stood
/// there out of the registry and leaves the others.
proof fn lemma_registry_swap_remove(sessions: Seq<Session>, i: int)
    requires
        distinct(sessions),
        0 <= i < sessions.len(),
    ensures
        distinct(sessions.update(i, sessions.last()).drop_last()),
        !listed(sessions.update(i, sessions.last()).drop_last(), sessions[i]@.id),
        registry_of(sessions.update(i, sessions.last()).drop_last()) == registry_of(
            sessions,
        ).remove(sessions[i]@.id),
{
    let shorter = sessions.update(i, sessions.last()).drop_last();
    let last = sessions.len() - 1;
    assert forall|k: int| 0 <= k < shorter.len() implies #[trigger] shorter[k] == sessions[if k
        == i {
        last
    } else {
        k
    }] by {}
    assert forall|k: int, j: int| 0 <= k < j < shorter.len() implies (#[trigger] shorter[k])@.id
        != (#[trigger] shorter[j])@.id by {
        let from_k = if k == i {
            last
        } else {
            k
        };
        let from_j = if j == i {
            last
        } else {
            j
        };
        assert(shorter[k] == sessions[from_k] && shorter[j] == sessions[from_j]);
        if from_k < from_j {
            assert(sessions[from_k]@.id != sessions[from_j]@.id);
        } else {
            assert(sessions[from_j]@.id != sessions[from_k]@.id);
        }
    }
    let gone = sessions[i]@.id;
    if listed(shorter, gone) {
        let k = place(shorter, gone);
        let from = if k == i {
            last
        } else {
            k
        };
        assert(shorter[k] == sessions[from]);
        if from < i {
            assert(sessions[from]@.id != sessions[i]@.id);
        } else {
            assert(sessions[i]@.id != sessions[from]@.id);
        }
    }
    lemma_registry(sessions);
    lemma_registry(shorter);
    let a = registry_of(shorter);
    let b = registry_of(sessions).remove(gone);
    assert forall|id: Seq<char>| a.contains_key(id) == b.contains_key(id) by {
        if a.contains_key(id) {
            let k = place(shorter, id);
            let from = if k == i {
                last
            } else {
                k
            };
            assert(shorter[k] == sessions[from]);
        }
        if b.contains_key(id) {
            let k = place(sessions, id);
            assert(k != i);
            let to = if k == last {
                i
            } else {
                k
            };
            assert(shorter[to] == sessions[k]);
        }
    }
    assert forall|id: Seq<char>| a.contains_key(id) implies a[id] == b[id] by {
        let k = place(shorter, id);
        let from = if k == i {
            last
        } else {
            k
        };
        assert(shorter[k] == sessions[from]);
    }
    assert(a =~= b);
}

/// The registry has as many entries as there are sessions.
proof fn lemma_registry_len(sessions: Seq<Session>)
    requires
        distinct(sessions),
    ensures
        registry_of(sessions).dom().finite(),
        registry_of(sessions).len() == sessions.len(),
    decreases sessions.len(),
{
    if sessions.len() == 0 {
        assert(registry_of(sessions) =~= Map::<Seq<char>, SessionView>::empty());
    } else {
        let shorter = sessions.drop_last();
        let last = sessions.last();
        assert forall|i: int, j: int| 0 <= i < j < shorter.len() implies (#[trigger] shorter[i])@.id
            != (#[trigger] shorter[j])@.id by {
            assert(shorter[i] == sessions[i] && shorter[j] == sessions[j]);
        }
        if listed(shorter, last@.id) {
            let k = place(shorter, last@.id);
            assert(shorter[k] == sessions[k]);
            assert(sessions[k]@.id != sessions[sessions.len() - 1]@.id);
        }
        lemma_registry_len(shorter);
        lemma_registry_push(shorter, last);
        assert(shorter.push(last) =~= sessions);
    }
}

/// Where the session of the identifier `id` stands, if there is one.
fn position(sessions: &Vec<Session>, id: &String) -> (r: Option<usize>)
    requires
        distinct(sessions@),
    ensures
        r is Some <==> registry_of(sessions@).contains_key(id@),
        match r {
            Some(i) => i < sessions.len() && sessions[i as int]@.id == id@ && registry_of(
                sessions@,
            )[id@] == sessions[i as int]@,
            None => !listed(sessions@, id@),
        },
{
    let mut i: usize = 0;
    while i < sessions.len()
        invariant
            i <= sessions.len(),
            distinct(sessions@),
            forall|k: int| 0 <= k < i ==> (#[trigger] sessions[k])@.id != id@,
        decreases sessions.len() - i,
    {
        if *sessions[i].id() == *id {
            proof {
                lemma_registry(sessions@);
            }
            return Some(i);
        }
        i += 1;
    }
    None
}

/// Session control: the registry of the sessions, each under its identifier.
pub struct Control {
    sessions: Vec<Session>,
}

impl View for Control {
    type V = Registry;

    closed spec fn view(&self) -> Registry {
        registry_of(self.sessions@)
    }
}

impl Control {
    #[verifier::type_invariant]
    spec fn no_identifier_twice(self) -> bool {
        distinct(self.sessions@)
    }

    /// Every session of the registry is filed under its own identifier.
    pub proof fn lemma_keyed(self)
        ensures
            keyed(self@),
    {
        assert forall|id: Seq<char>| self@.contains_key(id) implies (#[trigger] self@[id]).id
            == id by {
            assert(listed(self.sessions@, id));
        }
    }

    /// A registry without sessions.
    pub fn new() -> (control: Control)
        ensures
            control@ == Map::<Seq<char>, SessionView>::empty(),
    {
        let control = Control { sessions: Vec::new() };
        assert(control@ =~= Map::<Seq<char>, SessionView>::empty());
        control
    }

    /// The number of sessions.
    pub fn len(&self) -> (n: usize)
        ensures
            self@.dom().finite(),
            n == self@.len(),
    {
        proof {
            use_type_invariant(self);
            lemma_registry_len(self.sessions@);
        }
        self.sessions.len()
    }

    /// Hands out the sessions and leaves none behind.
    fn take(&mut self) -> (sessions: Vec<Session>)
        ensures
            sessions@ == old(self).sessions@,
            distinct(sessions@),
            final(self).sessions@ == Seq::<Session>::empty(),
    {
        proof {
            use_type_invariant(&*self);
        }
        let mut sessions: Vec<Session> = Vec::new();
        std::mem::swap(&mut self.sessions, &mut sessions);
        sessions
    }

    /// Whether there is a session of the identifier `id`.
    pub fn has_session(&self, id: &String) -> (r: bool)
        ensures
            r == self@.contains_key(id@),
    {
        proof {
            use_type_invariant(self);
        }
        position(&self.sessions, id).is_some()
    }

    /// Adds a session, in place of any session of the same identifier, whose
    /// log is dropped with it. Returns true: this cannot fail.
    pub fn add_session(&mut self, session: Session) -> (added: bool)
        ensures
            added,
            final(self)@ == old(self)@.insert(session@.id, session@),
    {
        let mut sessions = self.take();
        match position(&sessions, session.id()) {
            Some(i) => {
                proof {
                    lemma_registry_swap_remove(sessions@, i as int);
                }
                sessions.swap_remove(i);
            },
            None => {},
        }
        proof {
            lemma_registry_push(sessions@, session);
        }
        sessions.push(session);
        self.sessions = sessions;
        assert(self@ =~= old(self)@.insert(session@.id, session@));
        true
    }

    /// Removes the session of the identifier `session_id`. Returns whether
    /// there was one.
    pub fn remove_session(&mut self, session_id: SessionId) -> (removed: bool)
        ensures
            removed == old(self)@.contains_key(session_id@),
            final(self)@ == old(self)@.remove(session_id@),
    {
        let mut sessions = self.take();
        let removed = match position(&sessions, &session_id) {
            Some(i) => {
                proof {
                    lemma_registry_swap_remove(sessions@, i as int);
                }
                sessions.swap_remove(i);
                true
            },
            None => false,
        };
        self.sessions = sessions;
        assert(self@ =~= old(self)@.remove(session_id@));
        removed
    }

    /// Processes an incoming event now: see [`Control::process_event_at`].
    pub fn process_event(&mut self, evt: Event, auth: EventAuth) -> (r: Result<DiskAction, String>)
        ensures
            r is Ok <==> accepted(old(self)@, auth),
            r is Ok ==> final(self)@.contains_key(auth.ident@) && final(self)@ == old(self)@.insert(
                auth.ident@,
                old(self)@[auth.ident@].extended(evt@, final(self)@[auth.ident@].last_updated),
            ) && r->Ok_0@ == final(self)@[auth.ident@].disk_action(),
            r is Err ==> final(self)@ == old(self)@ && r->Err_0@ == if old(self)@.contains_key(
                auth.ident@,
            ) {
                bad_signature()
            } else {
                no_such_session()
            },
    {
        let now = Instant::now();
        self.process_event_at(evt, auth, now)
    }

    /// Processes an incoming event at the time `now`.
    ///
    /// The event is added to the session that `auth` names if that session
    /// exists and `auth` presents its secret. Otherwise nothing changes, and
    /// the error says which of the two failed.
    pub fn process_event_at(&mut self, evt: Event, auth: EventAuth, now: Instant) -> (r: Result<
        DiskAction,
        String,
    >)
        ensures
            r is Ok <==> accepted(old(self)@, auth),
            r is Ok ==> final(self)@ == old(self)@.insert(
                auth.ident@,
                old(self)@[auth.ident@].extended(evt@, now),
            ) && r->Ok_0@ == old(self)@[auth.ident@].extended(evt@, now).disk_action(),
            r is Err ==> final(self)@ == old(self)@ && r->Err_0@ == if old(self)@.contains_key(
                auth.ident@,
            ) {
                bad_signature()
            } else {
                no_such_session()
            },
    {
        proof {
            use_type_invariant(&*self);
        }
        match position(&self.sessions, &auth.ident) {
            Some(i) => {
                if !self.sessions[i].accepts(&auth) {
                    return Err("Invalid authorization token".to_owned());
                }
                let mut sessions = self.take();
                proof {
                    lemma_registry_swap_remove(sessions@, i as int);
                }
                let mut session = sessions.swap_remove(i);
                let action = session.add_log_entry_at(evt, now);
                proof {
                    lemma_registry_push(sessions@, session);
                }
                sessions.push(session);
                self.sessions = sessions;
                assert(self@ =~= old(self)@.insert(
                    auth.ident@,
                    old(self)@[auth.ident@].extended(evt@, now),
                ));
                Ok(action)
            },
            None => Err("Session ident expired or non-existing".to_owned()),
        }
    }

    /// Takes the outcome of the attempt to open the shared log of the
    /// session `session_id`, and says what is to be written next. Nothing
    /// changes, and nothing is to be written, where there is no such session.
    pub fn log_opened(&mut self, session_id: &String, opened: bool) -> (action: DiskAction)
        ensures
            final(self)@ == if old(self)@.contains_key(session_id@) {
                old(self)@.insert(session_id@, old(self)@[session_id@].resolved(opened))
            } else {
                old(self)@
            },
            action@ == if old(self)@.contains_key(session_id@) && old(
                self,
            )@[session_id@].log_resource is Unresolved {
                old(self)@[session_id@].resolved(opened).write_action()
            } else {
                DiskActionView::Idle
            },
    {
        proof {
            use_type_invariant(&*self);
        }
        match position(&self.sessions, session_id) {
            Some(i) => {
                let mut sessions = self.take();
                proof {
                    lemma_registry_swap_remove(sessions@, i as int);
                }
                let mut session = sessions.swap_remove(i);
                let action = session.log_opened(opened);
                proof {
                    lemma_registry_push(sessions@, session);
                }
                sessions.push(session);
                self.sessions = sessions;
                assert(self@ =~= old(self)@.insert(
                    session_id@,
                    old(self)@[session_id@].resolved(opened),
                ));
                action
            },
            None => DiskAction::Idle,
        }
    }

    /// Whether the shared log of the session `session_id` is open.
    pub fn log_is_open(&self, session_id: &String) -> (r: bool)
        ensures
            r == (self@.contains_key(session_id@) && self@[session_id@].log_resource is Open),
    {
        proof {
            use_type_invariant(self);
        }
        match position(&self.sessions, session_id) {
            Some(i) => self.sessions[i].log_resource() == crate::session::LogResource::Open,
            None => false,
        }
    }

    /// The rendered events of the session `session_id` with a sequence
    /// number from `first_entry` up to `last_entry`, or from `first_entry`
    /// on where `last_entry` is zero.
    pub fn get_event_list(&self, session_id: SessionId, first_entry: usize, last_entry: usize) -> (r:
        Result<Vec<String>, String>)
        ensures
            r is Ok <==> self@.contains_key(session_id@),
            r is Ok ==> r->Ok_0.deep_view() == self@[session_id@].entries(
                first_entry,
                range_end(last_entry),
            ),
            r is Err ==> r->Err_0@ == no_such_session(),
    {
        proof {
            use_type_invariant(self);
        }
        match position(&self.sessions, &session_id) {
            Some(i) => {
                if last_entry == 0 {
                    Ok(self.sessions[i].get_log_entries(first_entry, None))
                } else {
                    Ok(self.sessions[i].get_log_entries(first_entry, Some(last_entry)))
                }
            },
            None => Err("Session ident expired or non-existing".to_owned()),
        }
    }

    /// Cleans up the sessions that were not updated for their timeout, as
    /// seen at `at_time`, or now where that is `None`. Returns how many
    /// sessions were removed.
    pub fn cleanup(&mut self, at_time: Option<Instant>) -> (removed: usize)
        ensures
            old(self)@.dom().finite(),
            removed == old(self)@.len() - final(self)@.len(),
            match at_time {
                Some(now) => swept(old(self)@, now, final(self)@),
                None => exists|now: Instant| #[trigger] swept(old(self)@, now, final(self)@),
            },
    {
        let now = match at_time {
            Some(time) => time,
            None => Instant::now(),
        };
        let removed = self.cleanup_at(now);
        assert(swept(old(self)@, now, self@));
        removed
    }

    /// Removes exactly the sessions that have been idle for their timeout or
    /// longer at the time `now`, and returns their number.
    pub fn cleanup_at(&mut self, now: Instant) -> (removed: usize)
        ensures
            final(self)@ == retained(old(self)@, now),
            old(self)@.dom().finite(),
            final(self)@.dom().finite(),
            removed == old(self)@.len() - final(self)@.len(),
    {
        let ghost before = self@;
        let mut sessions = self.take();
        proof {
            lemma_registry_len(sessions@);
        }
        let size_before = sessions.len();
        let mut i: usize = 0;
        while i < sessions.len()
            invariant
                i <= sessions.len() <= size_before,
                distinct(sessions@),
                forall|id: Seq<char>| #[trigger]
                    registry_of(sessions@).contains_key(id) ==> before.contains_key(id)
                        && before[id] == registry_of(sessions@)[id],
                forall|id: Seq<char>|
                    before.contains_key(id) && !before[id].expired(now) ==> #[trigger] registry_of(
                        sessions@,
                    ).contains_key(id),
                forall|k: int| 0 <= k < i ==> !(#[trigger] sessions[k])@.expired(now),
            decreases sessions.len() - i,
        {
            if sessions[i].is_expired(now) {
                proof {
                    lemma_registry(sessions@);
                    lemma_registry_swap_remove(sessions@, i as int);
                }
                sessions.swap_remove(i);
            } else {
                i += 1;
            }
        }
        proof {
            lemma_registry(sessions@);
            lemma_registry_len(sessions@);
            let after = registry_of(sessions@);
            assert forall|id: Seq<char>| after.contains_key(id) implies !before[id].expired(
                now,
            ) by {
                let k = place(sessions@, id);
                assert(sessions@[k]@.id == id);
            }
            assert(after =~= retained(before, now));
        }
        let removed = size_before - sessions.len();
        self.sessions = sessions;
        removed
    }

    /// Handles a control message now: see [`Control::handle_message_at`].
    /// The response is an error for `Shutdown` alone.
    pub fn handle_message(&mut self, message: ControlMsg) -> (r: (
        Result<ControlMsgResponse, ()>,
        DiskAction,
    ))
        ensures
            exists|now: Instant| #[trigger]
                stepped(old(self)@, message, now, final(self)@, r.0, r.1),
    {
        let now = Instant::now();
        let r = self.handle_message_at(message, now);
        assert(stepped(old(self)@, message, now, self@, r.0, r.1));
        r
    }

    /// Handles a control message at the time `now`.
    ///
    /// Returns the response, which is an error for `Shutdown` alone, and
    /// what the disk is asked to do for an event that was added.
    pub fn handle_message_at(&mut self, message: ControlMsg, now: Instant) -> (r: (
        Result<ControlMsgResponse, ()>,
        DiskAction,
    ))
        ensures
            stepped(old(self)@, message, now, final(self)@, r.0, r.1),
    {
        match message {
            ControlMsg::CreateSession(init_data) => {
                let session = Session::new_at(init_data, now);
                if self.add_session(session) {
                    (Ok(ControlMsgResponse::Success), DiskAction::Idle)
                } else {
                    (Ok(ControlMsgResponse::Failure), DiskAction::Idle)
                }
            },
            ControlMsg::RemoveSession(id) => {
                if self.remove_session(id) {
                    (Ok(ControlMsgResponse::Success), DiskAction::Idle)
                } else {
                    (Ok(ControlMsgResponse::Failure), DiskAction::Idle)
                }
            },
            ControlMsg::AddEvent(event, auth) => match self.process_event_at(event, auth, now) {
                Ok(action) => (Ok(ControlMsgResponse::Success), action),
                Err(_) => (Ok(ControlMsgResponse::Failure), DiskAction::Idle),
            },
            ControlMsg::GetEvents { session_id, first_entry, last_entry } => match self.get_event_list(
                session_id,
                first_entry,
                last_entry,
            ) {
                Ok(lines) => (Ok(ControlMsgResponse::EventsData(lines)), DiskAction::Idle),
                Err(_) => (Ok(ControlMsgResponse::Failure), DiskAction::Idle),
            },
            ControlMsg::Cleanup => {
                let _ = self.cleanup_at(now);
                (Ok(ControlMsgResponse::Success), DiskAction::Idle)
            },
            ControlMsg::Shutdown => (Err(()), DiskAction::Idle),
        }
    }
}

} // verus!
