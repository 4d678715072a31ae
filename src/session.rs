use vstd::prelude::*;
use crate::bytes::{append_bytes, bytes_eq, copy_bytes};
use crate::command::{parse_command, parse_spec, Command, CommandView, Method};
use crate::file_manager::{
    all_unlocked, has_name, is_locked, name_index, names_stay_unique, names_unique, removed,
    stored, with_lock, FileManager, FileView, RegistryError,
};
use crate::response::{
    decimal_digits, list_response, list_response_spec, push_decimal, status_line, status_response,
    Status,
};

verus! {

/// What the connection handler is asked to do after a step.
#[derive(Debug, PartialEq, Eq)]
pub enum Action {
    /// Write these bytes.
    Reply(Vec<u8>),
    /// Create or truncate the file at this fresh path; the upload body follows.
    OpenForWrite(Vec<u8>),
    /// Write the GET header for the file at this path, then its bytes.
    SendFile(Vec<u8>),
    /// Delete the bytes at the path, then write the reply.
    Unlink(Vec<u8>, Vec<u8>),
    /// Read the next chunk of the upload body.
    Continue,
    /// Write these bytes, then close the connection.
    Fail(Vec<u8>),
    /// Close the connection.
    Close,
}

pub enum ActionView {
    Reply(Seq<u8>),
    OpenForWrite(Seq<u8>),
    SendFile(Seq<u8>),
    Unlink(Seq<u8>, Seq<u8>),
    Continue,
    Fail(Seq<u8>),
    Close,
}

impl View for Action {
    type V = ActionView;

    open spec fn view(&self) -> ActionView {
        match self {
            Action::Reply(b) => ActionView::Reply(b@),
            Action::OpenForWrite(p) => ActionView::OpenForWrite(p@),
            Action::SendFile(p) => ActionView::SendFile(p@),
            Action::Unlink(p, b) => ActionView::Unlink(p@, b@),
            Action::Continue => ActionView::Continue,
            Action::Fail(b) => ActionView::Fail(b@),
            Action::Close => ActionView::Close,
        }
    }
}

/// What happened on the connection.
#[derive(Debug)]
pub enum Event {
    /// A command line arrived.
    Line(Vec<u8>),
    /// `len` bytes of the upload body were written to storage, at time `now`.
    Chunk(u64, i64),
    /// Writing the upload body to storage failed.
    StoreFailed,
    /// The peer closed the connection.
    Disconnect,
    /// Reading from or writing to the connection failed.
    IoError,
}

pub enum EventView {
    Line(Seq<u8>),
    Chunk(u64, i64),
    StoreFailed,
    Disconnect,
    IoError,
}

impl View for Event {
    type V = EventView;

    open spec fn view(&self) -> EventView {
        match self {
            Event::Line(l) => EventView::Line(l@),
            Event::Chunk(n, t) => EventView::Chunk(*n, *t),
            Event::StoreFailed => EventView::StoreFailed,
            Event::Disconnect => EventView::Disconnect,
            Event::IoError => EventView::IoError,
        }
    }
}

/// Where the bytes of a file called `name` are kept under `root`.
pub open spec fn storage_path(root: Seq<u8>, name: Seq<u8>) -> Seq<u8> {
    root + seq![47u8] + name
}

fn make_storage_path(root: &Vec<u8>, name: &Vec<u8>) -> (r: Vec<u8>)
    ensures
        r@ == storage_path(root@, name@),
{
    let mut r = copy_bytes(root);
    r.push(47u8);
    append_bytes(&mut r, name);
    r
}

/// The path that the `n`-th upload of session `id` writes a file called
/// `name` to: `<root>/<name>~<id>-<n>`. Distinct sessions, and distinct
/// uploads of one session, never share a path.
pub open spec fn upload_path(root: Seq<u8>, name: Seq<u8>, id: u64, n: u64) -> Seq<u8> {
    storage_path(root, name) + seq![126u8] + decimal_digits(id as nat) + seq![45u8]
        + decimal_digits(n as nat)
}

fn make_upload_path(root: &Vec<u8>, name: &Vec<u8>, id: u64, n: u64) -> (r: Vec<u8>)
    ensures
        r@ == upload_path(root@, name@, id, n),
{
    let mut r = make_storage_path(root, name);
    r.push(126u8);
    push_decimal(&mut r, id);
    r.push(45u8);
    push_decimal(&mut r, n);
    r
}

/// What a command does to the registry, and the action it asks for; a PUT
/// that may go ahead names `dest` as the place for its body.
pub open spec fn dispatch(c: CommandView, reg: Seq<FileView>, dest: Seq<u8>) -> (
    Seq<FileView>,
    ActionView,
) {
    let v = c.value;
    match c.method {
        Method::List => (reg, ActionView::Reply(list_response_spec(reg))),
        Method::Get => if has_name(reg, v) {
            (reg, ActionView::SendFile(reg[name_index(reg, v)].path))
        } else {
            (reg, ActionView::Reply(status_line(Status::NotFound)))
        },
        Method::Delete => if !has_name(reg, v) {
            (reg, ActionView::Reply(status_line(Status::NotFound)))
        } else if is_locked(reg, v) {
            (reg, ActionView::Reply(status_line(Status::Locked)))
        } else {
            (
                removed(reg, v),
                ActionView::Unlink(reg[name_index(reg, v)].path, status_line(Status::Success)),
            )
        },
        Method::Lock => if !has_name(reg, v) {
            (reg, ActionView::Reply(status_line(Status::NotFound)))
        } else if is_locked(reg, v) {
            (reg, ActionView::Reply(status_line(Status::Locked)))
        } else {
            (with_lock(reg, v, true), ActionView::Reply(status_line(Status::Success)))
        },
        Method::Unlock => if !has_name(reg, v) {
            (reg, ActionView::Reply(status_line(Status::NotFound)))
        } else {
            (with_lock(reg, v, false), ActionView::Reply(status_line(Status::Success)))
        },
        Method::Put => if is_locked(reg, v) {
            (reg, ActionView::Reply(status_line(Status::Locked)))
        } else {
            (with_lock(reg, v, true), ActionView::OpenForWrite(dest))
        },
    }
}

impl Command {
    /// Carries out the command against the registry. PUT only takes the lock
    /// on an existing record and hands back `dest`, where its body is to be
    /// written; the body is received by the session.
    pub fn execute_method(self, reg: &mut FileManager, dest: &Vec<u8>) -> (a: Action)
        requires
            old(reg).wf(),
        ensures
            final(reg).wf(),
            final(reg)@ == dispatch(self@, old(reg)@, dest@).0,
            a@ == dispatch(self@, old(reg)@, dest@).1,
    {
        match self.method {
            Method::List => {
                let files = reg.list();
                Action::Reply(list_response(&files))
            },
            Method::Get => match reg.find(&self.value) {
                None => Action::Reply(status_response(Status::NotFound)),
                Some(f) => Action::SendFile(f.path),
            },
            Method::Delete => match reg.find(&self.value) {
                None => Action::Reply(status_response(Status::NotFound)),
                Some(f) => {
                    if f.locked {
                        Action::Reply(status_response(Status::Locked))
                    } else {
                        match reg.remove(&self.value) {
                            Ok(g) => Action::Unlink(g.path, status_response(Status::Success)),
                            Err(_) => Action::Reply(status_response(Status::NotFound)),
                        }
                    }
                },
            },
            Method::Lock => match reg.try_lock(&self.value) {
                Ok(()) => Action::Reply(status_response(Status::Success)),
                Err(RegistryError::NotFound) => Action::Reply(status_response(Status::NotFound)),
                Err(_) => Action::Reply(status_response(Status::Locked)),
            },
            Method::Unlock => match reg.unlock(&self.value) {
                Ok(()) => Action::Reply(status_response(Status::Success)),
                Err(_) => Action::Reply(status_response(Status::NotFound)),
            },
            Method::Put => match reg.try_lock(&self.value) {
                Err(RegistryError::AlreadyLocked) => Action::Reply(status_response(Status::Locked)),
                _ => Action::OpenForWrite(copy_bytes(dest)),
            },
        }
    }
}

/// Where a session stands.
#[derive(Debug, Clone, Copy, PartialEq, Eq, Structural)]
pub enum SessionState {
    AwaitingCommand,
    ReceivingBody,
    Closed,
}

/// What a session holds, as plain values.
pub struct SessionView {
    pub state: SessionState,
    pub target: Seq<u8>,
    pub remaining: u64,
    pub hash: Seq<u8>,
    pub root: Seq<u8>,
    pub id: u64,
    pub uploads: u64,
    pub path: Seq<u8>,
}

/// The protocol state of one connection. While a PUT body is being received
/// it holds the target name, the bytes still expected, the declared hash and
/// the path the body goes to. `id` tells sessions apart; `uploads` counts the
/// uploads this session has begun.
#[derive(Debug)]
pub struct Session {
    state: SessionState,
    target: Vec<u8>,
    remaining: u64,
    hash: Vec<u8>,
    root: Vec<u8>,
    id: u64,
    uploads: u64,
    path: Vec<u8>,
}

impl View for Session {
    type V = SessionView;

    closed spec fn view(&self) -> SessionView {
        SessionView {
            state: self.state,
            target: self.target@,
            remaining: self.remaining,
            hash: self.hash@,
            root: self.root@,
            id: self.id,
            uploads: self.uploads,
            path: self.path@,
        }
    }
}

pub open spec fn with_state(s: SessionView, st: SessionState) -> SessionView {
    with_remaining(s, st, s.remaining)
}

pub open spec fn with_remaining(s: SessionView, st: SessionState, n: u64) -> SessionView {
    SessionView {
        state: st,
        target: s.target,
        remaining: n,
        hash: s.hash,
        root: s.root,
        id: s.id,
        uploads: s.uploads,
        path: s.path,
    }
}

/// The upload counter after one more upload begins.
pub open spec fn next_count(n: u64) -> u64 {
    if n == u64::MAX {
        0
    } else {
        (n + 1) as u64
    }
}

/// The answer to a finished upload: when it replaces a record whose bytes lie
/// elsewhere, those old bytes are to be deleted first.
pub open spec fn commit_action(s: SessionView, reg: Seq<FileView>) -> ActionView {
    if has_name(reg, s.target) && reg[name_index(reg, s.target)].path != s.path {
        ActionView::Unlink(reg[name_index(reg, s.target)].path, status_line(Status::Success))
    } else {
        ActionView::Reply(status_line(Status::Success))
    }
}

/// The record that a finished upload leaves.
pub open spec fn upload_record(s: SessionView, now: i64) -> FileView {
    FileView {
        name: s.target,
        path: s.path,
        hash: s.hash,
        created: now,
        locked: false,
    }
}

/// One step of a session: its next state, the registry after it, and what the
/// connection handler is to do.
pub open spec fn next(s: SessionView, reg: Seq<FileView>, ev: EventView) -> (
    SessionView,
    Seq<FileView>,
    ActionView,
) {
    match s.state {
        SessionState::Closed => (s, reg, ActionView::Close),
        SessionState::AwaitingCommand => match ev {
            EventView::Line(l) => match parse_spec(l) {
                Err(_) => (with_state(s, SessionState::Closed), reg, ActionView::Close),
                Ok(c) => {
                    let dest = upload_path(s.root, c.value, s.id, s.uploads);
                    let d = dispatch(c, reg, dest);
                    if d.1 is OpenForWrite {
                        (
                            SessionView {
                                state: SessionState::ReceivingBody,
                                target: c.value,
                                remaining: c.length,
                                hash: c.hash,
                                root: s.root,
                                id: s.id,
                                uploads: next_count(s.uploads),
                                path: dest,
                            },
                            d.0,
                            d.1,
                        )
                    } else {
                        (s, d.0, d.1)
                    }
                },
            },
            EventView::IoError | EventView::Disconnect => (
                with_state(s, SessionState::Closed),
                all_unlocked(reg),
                ActionView::Close,
            ),
            _ => (with_state(s, SessionState::Closed), reg, ActionView::Close),
        },
        SessionState::ReceivingBody => match ev {
            EventView::Chunk(n, now) => if n > s.remaining {
                (with_state(s, SessionState::Closed), all_unlocked(reg), ActionView::Close)
            } else if n == s.remaining {
                (
                    with_remaining(s, SessionState::AwaitingCommand, 0),
                    stored(reg, upload_record(s, now)),
                    commit_action(s, reg),
                )
            } else {
                (
                    with_remaining(s, SessionState::ReceivingBody, (s.remaining - n) as u64),
                    reg,
                    ActionView::Continue,
                )
            },
            EventView::StoreFailed => (
                with_state(s, SessionState::Closed),
                with_lock(reg, s.target, false),
                ActionView::Fail(status_line(Status::InternalError)),
            ),
            _ => (with_state(s, SessionState::Closed), all_unlocked(reg), ActionView::Close),
        },
    }
}

/// While `name` is locked, a DELETE or a PUT of it from any session waiting
/// for a command is answered `423 Locked`, and neither the registry nor the
/// session changes.
pub proof fn locked_blocks_mutation(s: SessionView, reg: Seq<FileView>, line: Seq<u8>)
    requires
        s.state == SessionState::AwaitingCommand,
        parse_spec(line) is Ok,
        parse_spec(line)->Ok_0.method == Method::Delete || parse_spec(line)->Ok_0.method
            == Method::Put,
        is_locked(reg, parse_spec(line)->Ok_0.value),
    ensures
        next(s, reg, EventView::Line(line)).2 == ActionView::Reply(status_line(Status::Locked)),
        next(s, reg, EventView::Line(line)).1 == reg,
        next(s, reg, EventView::Line(line)).0 == s,
{
}

/// When the connection breaks or the peer leaves, in the middle of an upload
/// or between commands, the session closes and no record stays locked.
pub proof fn abort_releases_locks(s: SessionView, reg: Seq<FileView>, ev: EventView)
    requires
        s.state != SessionState::Closed,
        ev is Disconnect || ev is IoError,
    ensures
        next(s, reg, ev).0.state == SessionState::Closed,
        next(s, reg, ev).2 == ActionView::Close,
        forall|i: int|
            0 <= i < next(s, reg, ev).1.len() ==> !(#[trigger] next(s, reg, ev).1[i]).locked,
{
}

/// No step of any session, an upload that replaces a record included, gives
/// two records the same name.
pub proof fn session_keeps_names_unique(s: SessionView, reg: Seq<FileView>, ev: EventView)
    requires
        names_unique(reg),
    ensures
        names_unique(next(s, reg, ev).1),
{
    match ev {
        EventView::Chunk(_, now) => {
            names_stay_unique(reg, upload_record(s, now), s.target, false);
        },
        EventView::Line(l) => {
            if parse_spec(l) is Ok {
                let v = parse_spec(l)->Ok_0.value;
                names_stay_unique(reg, upload_record(s, 0), v, true);
                names_stay_unique(reg, upload_record(s, 0), v, false);
            }
        },
        _ => {
            names_stay_unique(reg, upload_record(s, 0), s.target, false);
        },
    }
}

/// The sum of chunk lengths.
pub open spec fn chunk_total(ns: Seq<u64>) -> nat
    decreases ns.len(),
{
    if ns.len() == 0 {
        0
    } else {
        ns[0] as nat + chunk_total(ns.drop_first())
    }
}

/// Feeds the body chunks `ns` (at least one) to a session, in order; the
/// result of the last step.
pub open spec fn feed_chunks(s: SessionView, reg: Seq<FileView>, ns: Seq<u64>, now: i64) -> (
    SessionView,
    Seq<FileView>,
    ActionView,
)
    decreases ns.len(),
{
    if ns.len() <= 1 {
        next(s, reg, EventView::Chunk(ns[0], now))
    } else {
        let r = next(s, reg, EventView::Chunk(ns[0], now));
        feed_chunks(r.0, r.1, ns.drop_first(), now)
    }
}

/// An upload takes exactly its declared length: chunks that add up to it
/// (none of them empty, unless there is only one) are received without a
/// reply until the last one, which stores the record, unlocked, at the
/// upload's path with the declared hash, and answers `200 OK` (after the
/// bytes it replaces are deleted).
pub proof fn upload_takes_declared_length(s: SessionView, reg: Seq<FileView>, ns: Seq<u64>, now: i64)
    requires
        s.state == SessionState::ReceivingBody,
        ns.len() >= 1,
        chunk_total(ns) == s.remaining,
        ns.len() == 1 || forall|i: int| 0 <= i < ns.len() ==> #[trigger] ns[i] > 0,
    ensures
        feed_chunks(s, reg, ns, now).0.state == SessionState::AwaitingCommand,
        feed_chunks(s, reg, ns, now).1 == stored(reg, upload_record(s, now)),
        feed_chunks(s, reg, ns, now).2 == commit_action(s, reg),
    decreases ns.len(),
{
    if ns.len() > 1 {
        let rest = ns.drop_first();
        assert(rest[0] > 0 && rest[0] == ns[1]);
        assert(chunk_total(rest) > 0) by {
            reveal_with_fuel(chunk_total, 2);
        }
        let s1 = with_remaining(s, SessionState::ReceivingBody, (s.remaining - ns[0]) as u64);
        assert(next(s, reg, EventView::Chunk(ns[0], now)) == (s1, reg, ActionView::Continue));
        assert forall|i: int| 0 <= i < rest.len() implies #[trigger] rest[i] > 0 by {
            assert(rest[i] == ns[i + 1]);
        }
        upload_takes_declared_length(s1, reg, rest, now);
        assert(upload_record(s1, now) == upload_record(s, now));
        assert(commit_action(s1, reg) == commit_action(s, reg));
    } else {
        assert(chunk_total(ns.drop_first()) == 0);
    }
}

impl Session {
    /// A session waiting for its first command, storing uploads under `root`;
    /// `id` is to differ between the sessions of one registry.
    pub fn new(root: Vec<u8>, id: u64) -> (r: Session)
        ensures
            r@.id == id,
            r@.uploads == 0,
            r@.path == Seq::<u8>::empty(),
            r@.state == SessionState::AwaitingCommand,
            r@.root == root@,
            r@.remaining == 0,
            r@.target == Seq::<u8>::empty(),
            r@.hash == Seq::<u8>::empty(),
    {
        Session {
            state: SessionState::AwaitingCommand,
            target: Vec::new(),
            remaining: 0,
            hash: Vec::new(),
            root,
            id,
            uploads: 0,
            path: Vec::new(),
        }
    }

    pub fn state(&self) -> (r: SessionState)
        ensures
            r == self@.state,
    {
        self.state
    }

    /// The name of the file of the current or last upload.
    pub fn target(&self) -> (r: Vec<u8>)
        ensures
            r@ == self@.target,
    {
        copy_bytes(&self.target)
    }

    /// Where the body of the current or last upload goes.
    pub fn path(&self) -> (r: Vec<u8>)
        ensures
            r@ == self@.path,
    {
        copy_bytes(&self.path)
    }

    /// Bytes of the upload body still expected.
    pub fn remaining(&self) -> (r: u64)
        ensures
            r == self@.remaining,
    {
        self.remaining
    }

    /// Consumes one event.
    pub fn step(&mut self, reg: &mut FileManager, ev: Event) -> (a: Action)
        requires
            old(reg).wf(),
        ensures
            final(reg).wf(),
            final(self)@ == next(old(self)@, old(reg)@, ev@).0,
            final(reg)@ == next(old(self)@, old(reg)@, ev@).1,
            a@ == next(old(self)@, old(reg)@, ev@).2,
    {
        match self.state {
            SessionState::Closed => Action::Close,
            SessionState::AwaitingCommand => match ev {
                Event::Line(l) => match parse_command(&l) {
                    Err(_) => {
                        self.state = SessionState::Closed;
                        Action::Close
                    },
                    Ok(c) => {
                        let name = copy_bytes(&c.value);
                        let length = c.length;
                        let hash = copy_bytes(&c.hash);
                        let dest = make_upload_path(&self.root, &c.value, self.id, self.uploads);
                        let a = c.execute_method(reg, &dest);
                        if let Action::OpenForWrite(_) = a {
                            self.state = SessionState::ReceivingBody;
                            self.target = name;
                            self.remaining = length;
                            self.hash = hash;
                            self.path = dest;
                            self.uploads = if self.uploads == u64::MAX {
                                0
                            } else {
                                self.uploads + 1
                            };
                        }
                        a
                    },
                },
                Event::IoError | Event::Disconnect => {
                    reg.unlock_all_files();
                    self.state = SessionState::Closed;
                    Action::Close
                },
                _ => {
                    self.state = SessionState::Closed;
                    Action::Close
                },
            },
            SessionState::ReceivingBody => match ev {
                Event::Chunk(n, now) => {
                    if n > self.remaining {
                        reg.unlock_all_files();
                        self.state = SessionState::Closed;
                        Action::Close
                    } else if n == self.remaining {
                        let replaced = reg.find(&self.target);
                        reg.store(copy_bytes(&self.target), copy_bytes(&self.path), copy_bytes(&self.hash), now);
                        self.state = SessionState::AwaitingCommand;
                        self.remaining = 0;
                        match replaced {
                            Some(f) => {
                                if bytes_eq(&f.path, &self.path) {
                                    Action::Reply(status_response(Status::Success))
                                } else {
                                    Action::Unlink(f.path, status_response(Status::Success))
                                }
                            },
                            None => Action::Reply(status_response(Status::Success)),
                        }
                    } else {
                        self.remaining = self.remaining - n;
                        Action::Continue
                    }
                },
                Event::StoreFailed => {
                    let _ = reg.unlock(&self.target);
                    self.state = SessionState::Closed;
                    Action::Fail(status_response(Status::InternalError))
                },
                _ => {
                    reg.unlock_all_files();
                    self.state = SessionState::Closed;
                    Action::Close
                },
            },
        }
    }
}

} // verus!
