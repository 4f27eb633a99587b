//! One installation session: its event log, the state of its log file and
//! the time of its last activity.

use crate::auth::signature_matches;
use crate::auth::EventAuth;
use crate::clock::idle_seconds;
use crate::clock::seconds_between;
use crate::event::file_name_of;
use crate::event::safe_filename;
use crate::event::Event;
use crate::event::EventView;
use std::time::Instant;
use vstd::prelude::*;
use vstd::string::*;

verus! {

/// The identifier of a session: an opaque string, unique in the registry.
pub type SessionId = String;

/// Information required to start a session.
#[derive(Debug)]
pub struct SessionInit {
    pub id: SessionId,
    /// The directory that the session's files are written to.
    pub log_path: String,
    /// Seconds of inactivity after which the session may be purged.
    pub timeout: u32,
    /// The secret that every event for this session has to present.
    pub secret: String,
}

/// The state of a session's shared log file. It is resolved once, with the
/// first event, and never changes afterwards.
#[derive(Clone, Copy, Debug, PartialEq, Eq, Structural)]
pub enum LogResource {
    /// No attempt to open the file was made yet.
    Unresolved,
    /// The file was opened and is kept open.
    Open,
    /// The file could not be opened; no further attempt is made.
    Failed,
}

/// What the disk is asked to do for an admitted event. Whether the disk
/// succeeds never bears on the admission.
#[derive(Debug, PartialEq, Eq)]
pub enum DiskAction {
    /// Create the shared log of `session` at `path`, truncating what is
    /// there, and report the outcome to the session.
    OpenLog { session: SessionId, path: String },
    /// Append `line` and a line break to the open shared log of `session`.
    AppendLine { session: SessionId, line: String },
    /// Create the file at `path`, truncating what is there, and write `data`.
    WriteFile { path: String, data: Vec<u8> },
    /// Nothing.
    Idle,
}

/// What a [`DiskAction`] holds.
pub enum DiskActionView {
    OpenLog { session: Seq<char>, path: Seq<char> },
    AppendLine { session: Seq<char>, line: Seq<char> },
    WriteFile { path: Seq<char>, data: Seq<u8> },
    Idle,
}

impl View for DiskAction {
    type V = DiskActionView;

    open spec fn view(&self) -> DiskActionView {
        match self {
            DiskAction::OpenLog { session, path } => DiskActionView::OpenLog {
                session: session@,
                path: path@,
            },
            DiskAction::AppendLine { session, line } => DiskActionView::AppendLine {
                session: session@,
                line: line@,
            },
            DiskAction::WriteFile { path, data } => DiskActionView::WriteFile {
                path: path@,
                data: data@,
            },
            DiskAction::Idle => DiskActionView::Idle,
        }
    }
}

/// A single installation session. It accumulates the events of the
/// installation, numbered from zero in the order of their admission.
#[derive(Debug)]
pub struct Session {
    id: SessionId,
    log_path: String,
    timeout: u32,
    secret: String,
    log: Vec<Event>,
    log_resource: LogResource,
    last_updated: Instant,
}

/// What a [`Session`] holds. An event's sequence number is its index in `log`.
pub struct SessionView {
    pub id: Seq<char>,
    pub log_path: Seq<char>,
    pub timeout: u32,
    pub secret: Seq<char>,
    pub log: Seq<EventView>,
    pub log_resource: LogResource,
    pub last_updated: Instant,
}

impl SessionView {
    /// The session that `init` starts at the time `now`.
    pub open spec fn fresh(init: SessionInit, now: Instant) -> SessionView {
        SessionView {
            id: init.id@,
            log_path: init.log_path@,
            timeout: init.timeout,
            secret: init.secret@,
            log: Seq::empty(),
            log_resource: LogResource::Unresolved,
            last_updated: now,
        }
    }

    /// The session after `event` was admitted at the time `now`.
    pub open spec fn extended(self, event: EventView, now: Instant) -> SessionView {
        SessionView { log: self.log.push(event), last_updated: now, ..self }
    }

    /// The session after the attempt to open its shared log was reported.
    /// Only an unresolved log file takes the report.
    pub open spec fn resolved(self, opened: bool) -> SessionView {
        if self.log_resource is Unresolved {
            SessionView {
                log_resource: if opened {
                    LogResource::Open
                } else {
                    LogResource::Failed
                },
                ..self
            }
        } else {
            self
        }
    }

    /// The path of the session's shared log.
    pub open spec fn shared_log_path(self) -> Seq<char> {
        self.log_path + "/events.log"@
    }

    /// What is to be written for the newest event: a line of the shared log
    /// for a text event, if that log is open; a file of its own for a binary
    /// event, whatever became of the shared log.
    pub open spec fn write_action(self) -> DiskActionView {
        if self.log.len() == 0 {
            DiskActionView::Idle
        } else {
            match self.log.last() {
                EventView::Text(line) => if self.log_resource is Open {
                    DiskActionView::AppendLine { session: self.id, line }
                } else {
                    DiskActionView::Idle
                },
                EventView::Raw(ident, data) => DiskActionView::WriteFile {
                    path: self.log_path + "/"@ + file_name_of(ident),
                    data,
                },
            }
        }
    }

    /// What the disk is asked first for the newest event: to open the shared
    /// log as long as that was never tried, else to write.
    pub open spec fn disk_action(self) -> DiskActionView {
        if self.log.len() > 0 && self.log_resource is Unresolved {
            DiskActionView::OpenLog { session: self.id, path: self.shared_log_path() }
        } else {
            self.write_action()
        }
    }

    /// The rendered events with a sequence number from `start` up to `end`,
    /// or up to the end of the log where `end` is `None`.
    pub open spec fn entries(self, start: usize, end: Option<usize>) -> Seq<Seq<char>> {
        let stop = match end {
            Some(end) => if end < self.log.len() {
                end as int
            } else {
                self.log.len() as int
            },
            None => self.log.len() as int,
        };
        if start < stop {
            self.log.subrange(start as int, stop).map_values(|e: EventView| e.rendered())
        } else {
            Seq::empty()
        }
    }

    /// Whether the session has been idle for its timeout or longer at `now`.
    pub open spec fn expired(self, now: Instant) -> bool {
        idle_seconds(now, self.last_updated) >= self.timeout
    }
}

/// One event and the time at which it was added.
pub struct Addition {
    pub event: EventView,
    pub at: Instant,
}

impl SessionView {
    /// The session after each of `additions` was added in turn.
    pub open spec fn extended_by(self, additions: Seq<Addition>) -> SessionView
        decreases additions.len(),
    {
        if additions.len() == 0 {
            self
        } else {
            self.extended_by(additions.drop_last()).extended(
                additions.last().event,
                additions.last().at,
            )
        }
    }
}

/// Events keep the order in which they were added: after any additions the
/// log is the old log followed by the added events, and nothing else of the
/// session has changed but the time of its last activity.
pub proof fn lemma_log_keeps_additions(session: SessionView, additions: Seq<Addition>)
    ensures
        session.extended_by(additions).log == session.log + additions.map_values(
            |a: Addition| a.event,
        ),
        session.extended_by(additions).id == session.id,
        session.extended_by(additions).log_path == session.log_path,
        session.extended_by(additions).timeout == session.timeout,
        session.extended_by(additions).secret == session.secret,
        session.extended_by(additions).log_resource == session.log_resource,
    decreases additions.len(),
{
    if additions.len() > 0 {
        lemma_log_keeps_additions(session, additions.drop_last());
        assert(additions.drop_last().map_values(|a: Addition| a.event).push(
            additions.last().event,
        ) =~= additions.map_values(|a: Addition| a.event));
    }
    assert(session.extended_by(additions).log =~= session.log + additions.map_values(
        |a: Addition| a.event,
    ));
}

/// A session that started empty and took some additions shows exactly
/// those, rendered, in the order of the calls, when all its entries are
/// asked for.
pub proof fn lemma_all_entries_are_the_additions(session: SessionView, additions: Seq<Addition>)
    requires
        session.log.len() == 0,
        additions.len() <= usize::MAX,
    ensures
        session.extended_by(additions).entries(0, None).len() == additions.len(),
        session.extended_by(additions).entries(0, None) == additions.map_values(
            |a: Addition| a.event.rendered(),
        ),
{
    lemma_log_keeps_additions(session, additions);
    let after = session.extended_by(additions);
    assert(after.log =~= additions.map_values(|a: Addition| a.event));
    assert(after.log.subrange(0, after.log.len() as int) =~= after.log);
    assert(after.entries(0, None) =~= additions.map_values(|a: Addition| a.event.rendered()));
}

/// A range of entries holds the events whose sequence numbers lie in it and
/// in the log, in their order; a range that starts beyond the log is empty,
/// and so is one that ends where it starts or before.
pub proof fn lemma_entries_are_a_range(session: SessionView, start: usize, end: Option<usize>)
    ensures
        match end {
            Some(end) => session.entries(start, Some(end)).len() == if start < end && start
                < session.log.len() {
                (if end < session.log.len() {
                    end as int
                } else {
                    session.log.len() as int
                }) - start
            } else {
                0
            },
            None => session.entries(start, None).len() == if start < session.log.len() {
                session.log.len() - start
            } else {
                0
            },
        },
        forall|k: int|
            0 <= k < session.entries(start, end).len() ==> #[trigger] session.entries(
                start,
                end,
            )[k] == session.log[start + k].rendered(),
        start >= session.log.len() ==> session.entries(start, end) == Seq::<Seq<char>>::empty(),
{
}

/// The state of the shared log is resolved once: a second report changes
/// nothing, no report leads back to an unresolved log, and adding events
/// leaves the state as it is.
pub proof fn lemma_log_resource_is_resolved_once(
    session: SessionView,
    first: bool,
    second: bool,
    event: EventView,
    now: Instant,
)
    ensures
        !(session.resolved(first).log_resource is Unresolved),
        session.resolved(first).resolved(second) == session.resolved(first),
        !(session.log_resource is Unresolved) ==> session.resolved(first) == session,
        session.extended(event, now).log_resource == session.log_resource,
{
}

impl View for Session {
    type V = SessionView;

    closed spec fn view(&self) -> SessionView {
        SessionView {
            id: self.id@,
            log_path: self.log_path@,
            timeout: self.timeout,
            secret: self.secret@,
            log: self.log@.map_values(|e: Event| e@),
            log_resource: self.log_resource,
            last_updated: self.last_updated,
        }
    }
}

impl Session {
    /// Starts a session now.
    pub fn new(init: SessionInit) -> (s: Session)
        ensures
            s@ == SessionView::fresh(init, s@.last_updated),
    {
        let now = Instant::now();
        Session::new_at(init, now)
    }

    /// Starts a session whose last activity is `now`.
    pub fn new_at(init: SessionInit, now: Instant) -> (s: Session)
        ensures
            s@ == SessionView::fresh(init, now),
    {
        let s = Session {
            id: init.id,
            log_path: init.log_path,
            timeout: init.timeout,
            secret: init.secret,
            log: Vec::new(),
            log_resource: LogResource::Unresolved,
            last_updated: now,
        };
        assert(s.log@.map_values(|e: Event| e@) =~= Seq::<EventView>::empty());
        s
    }

    /// The session's identifier.
    pub fn id(&self) -> (r: &String)
        ensures
            r@ == self@.id,
    {
        &self.id
    }

    /// The seconds of inactivity after which the session may be purged.
    pub fn timeout(&self) -> (r: u32)
        ensures
            r == self@.timeout,
    {
        self.timeout
    }

    /// The state of the session's shared log file.
    pub fn log_resource(&self) -> (r: LogResource)
        ensures
            r == self@.log_resource,
    {
        self.log_resource
    }

    /// The time of the session's last activity.
    pub fn last_updated(&self) -> (r: Instant)
        ensures
            r == self@.last_updated,
    {
        self.last_updated
    }

    /// The number of events in the log, which is the sequence number of the
    /// next one.
    pub fn len(&self) -> (n: usize)
        ensures
            n == self@.log.len(),
    {
        self.log.len()
    }

    /// Whether `auth` presents the session's secret.
    pub fn accepts(&self, auth: &EventAuth) -> (ok: bool)
        ensures
            ok == signature_matches(auth.signature@, self@.secret),
    {
        auth.verify(self.secret.as_str())
    }

    /// Whether the session has been idle for its timeout or longer at `now`.
    pub fn is_expired(&self, now: Instant) -> (r: bool)
        ensures
            r == self@.expired(now),
    {
        seconds_between(now, self.last_updated) >= self.timeout as u64
    }

    /// What is to be written for the newest event.
    fn write_action(&self) -> (action: DiskAction)
        ensures
            action@ == self@.write_action(),
    {
        let n = self.log.len();
        if n == 0 {
            return DiskAction::Idle;
        }
        assert(self@.log.last() == self.log@[n - 1]@);
        match &self.log[n - 1] {
            Event::Text(line) => {
                if self.log_resource == LogResource::Open {
                    DiskAction::AppendLine { session: self.id.clone(), line: line.clone() }
                } else {
                    DiskAction::Idle
                }
            },
            Event::Raw(ident, data) => {
                let mut path = self.log_path.clone();
                path.append("/");
                let name = safe_filename(ident.as_str());
                path.append(name.as_str());
                DiskAction::WriteFile { path, data: data.clone() }
            },
        }
    }

    /// Adds an event now.
    ///
    /// The event gets the next sequence number and the session counts as
    /// active again, whatever the disk will do. The result is what the disk
    /// is asked first for this event.
    pub fn add_log_entry(&mut self, event: Event) -> (action: DiskAction)
        ensures
            final(self)@ == old(self)@.extended(event@, final(self)@.last_updated),
            action@ == final(self)@.disk_action(),
    {
        let now = Instant::now();
        self.add_log_entry_at(event, now)
    }

    /// Adds an event at the time `now`.
    pub fn add_log_entry_at(&mut self, event: Event, now: Instant) -> (action: DiskAction)
        ensures
            final(self)@ == old(self)@.extended(event@, now),
            action@ == final(self)@.disk_action(),
    {
        proof {
            assert(self.log@.push(event).map_values(|e: Event| e@) =~= self.log@.map_values(
                |e: Event| e@,
            ).push(event@));
        }
        self.log.push(event);
        self.last_updated = now;
        if self.log_resource == LogResource::Unresolved {
            let mut path = self.log_path.clone();
            path.append("/events.log");
            DiskAction::OpenLog { session: self.id.clone(), path }
        } else {
            self.write_action()
        }
    }

    /// Takes the outcome of the attempt to open the shared log.
    ///
    /// An unresolved log file becomes open or failed for good, and the result
    /// is what is to be written for the newest event. On a resolved one the
    /// report changes nothing and nothing is asked of the disk.
    pub fn log_opened(&mut self, opened: bool) -> (action: DiskAction)
        ensures
            final(self)@ == old(self)@.resolved(opened),
            action@ == if old(self)@.log_resource is Unresolved {
                final(self)@.write_action()
            } else {
                DiskActionView::Idle
            },
    {
        if self.log_resource == LogResource::Unresolved {
            self.log_resource = if opened {
                LogResource::Open
            } else {
                LogResource::Failed
            };
            self.write_action()
        } else {
            DiskAction::Idle
        }
    }

    /// Retrieves a range of events, rendered: those with a sequence number
    /// from `start` up to `end`, or all from `start` on where `end` is
    /// `None`. A range that holds no event gives an empty result.
    pub fn get_log_entries(&self, start: usize, end: Option<usize>) -> (r: Vec<String>)
        ensures
            r.deep_view() == self@.entries(start, end),
    {
        let len = self.log.len();
        let stop = match end {
            Some(end) => if end < len {
                end
            } else {
                len
            },
            None => len,
        };
        let mut r: Vec<String> = Vec::new();
        if start >= stop {
            assert(r.deep_view() =~= Seq::<Seq<char>>::empty());
            return r;
        }
        let mut i: usize = start;
        while i < stop
            invariant
                start <= i <= stop <= self.log.len(),
                r.deep_view() == self@.log.subrange(start as int, i as int).map_values(
                    |e: EventView| e.rendered(),
                ),
            decreases stop - i,
        {
            let line = self.log[i].to_string();
            let ghost before = r.deep_view();
            r.push(line);
            proof {
                assert(r.deep_view() =~= before.push(line@));
                assert(self@.log[i as int] == self.log@[i as int]@);
                assert(self@.log.subrange(start as int, i + 1).map_values(
                    |e: EventView| e.rendered(),
                ) =~= self@.log.subrange(start as int, i as int).map_values(
                    |e: EventView| e.rendered(),
                ).push(self@.log[i as int].rendered()));
            }
            i += 1;
        }
        r
    }
}

} // verus!
