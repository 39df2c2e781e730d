//! The state of the application, and the rules by which it changes.
//!
//! The application is in exactly one of four states: waiting, scanning for a
//! room to host, hosting, or a guest. A counter, the index, goes with the
//! state and is raised by one with every transition, so that an observer who
//! remembers the index sees that something happened even where the state
//! reads the same.
//!
//! Whatever takes time happens outside: a session is started between a plan,
//! which hands out a ticket, and a commit, which takes the ticket and the
//! session back. A ticket is good as long as the index is the one it was
//! drawn at; a commit with a stale ticket changes nothing and hands the
//! session back. A state is entered with a live session only: a session that
//! is not alive at the commit sends the application back to waiting.
//!
//! A state that is left is handed over to the caller with its session halted
//! and its broadcaster terminated, together with the word whether the engine
//! has to be told.

use vstd::prelude::*;
use crate::code::{encode, valid_port, Room, LOCAL_PORT};
use crate::easytier::argument::PortForward;
use crate::easytier::session::{accepted_rules, all_accepted, all_cidrs, halt, node_address, pending,
    player_views, players, step, Action, EasyTierTunRequest, Easytier, Event, Phase, Route, Session};
use crate::easytier::config::texts;
use crate::fakeserver::{round_of, Broadcaster, FakeServer, Round, Signals};
use crate::payload::advert;
use crate::net::{socket_text, IpAddr, Ipv4Addr, SocketAddr};
use crate::scanning::{heard, Scanning};
use crate::text::{ascii_text, to_text};

verus! {

/// The idle time after which the application gives up, in milliseconds.
pub const TIMEOUT_MS: u64 = 10000;

/// The same for a debug build.
pub const DEBUG_TIMEOUT_MS: u64 = 3000;

/// The time between two ticks, in milliseconds.
pub const TICK_MS: u64 = 200;

/// The name of a state.
#[derive(Clone, Copy, Debug, PartialEq, Eq, Structural)]
pub enum Label {
    Waiting,
    Scanning,
    Hosting,
    Guesting,
}

/// The state of the application, with what it owns.
pub enum AppState {
    /// Idle since `begin`.
    Waiting { begin: u64 },
    /// Listening for a room to host, idle since `begin`.
    Scanning { begin: u64, scanner: Scanning },
    /// Host of `room`.
    Hosting { easytier: Easytier, room: Room },
    /// Guest of `room`, advertising it on this machine.
    Guesting { easytier: Easytier, entry: FakeServer, room: Room },
}

/// The state of the application, as mathematics.
pub enum State {
    Waiting { begin: u64 },
    Scanning { begin: u64, rooms: Seq<u16> },
    Hosting { session: Session, room: u16 },
    Guesting { session: Session, entry: Broadcaster, room: u16 },
}

impl View for AppState {
    type V = State;

    open spec fn view(&self) -> State {
        match *self {
            AppState::Waiting { begin } => State::Waiting { begin },
            AppState::Scanning { begin, scanner } => State::Scanning { begin, rooms: scanner@ },
            AppState::Hosting { easytier, room } => State::Hosting { session: easytier@, room: room@ },
            AppState::Guesting { easytier, entry, room } => State::Guesting {
                session: easytier@,
                entry: entry@,
                room: room@,
            },
        }
    }
}

/// The state and its index, as mathematics.
pub struct Machine {
    pub index: u64,
    pub state: State,
    pub timeout: u64,
}

/// The name of a state.
pub open spec fn label_of(state: State) -> Label {
    match state {
        State::Waiting { .. } => Label::Waiting,
        State::Scanning { .. } => Label::Scanning,
        State::Hosting { .. } => Label::Hosting,
        State::Guesting { .. } => Label::Guesting,
    }
}

/// The time from `begin` to `now`; none where the clock reads earlier.
pub open spec fn elapsed(begin: u64, now: u64) -> int {
    if now >= begin {
        now - begin
    } else {
        0
    }
}

/// Whether the session of a state, if it has one, is alive.
pub open spec fn session_alive(state: State) -> bool {
    match state {
        State::Hosting { session, .. } => session.phase is Running,
        State::Guesting { session, .. } => session.phase is Running,
        _ => false,
    }
}

/// The broadcaster of a guest of `room`: bound at the local port, sending.
pub open spec fn entry_of(room: u16) -> Broadcaster {
    Broadcaster { port: LOCAL_PORT, room, state: Signals::Activate }
}

/// A session with another phase.
pub open spec fn in_phase(session: Session, phase: Phase) -> Session {
    Session { phase, ..session }
}

/// A state as it is handed over when it is left: its session halted, its
/// broadcaster terminated.
pub open spec fn shut(state: State) -> State {
    match state {
        State::Hosting { session, room } => State::Hosting {
            session: in_phase(session, halt(session.phase).0),
            room,
        },
        State::Guesting { session, entry, room } => State::Guesting {
            session: in_phase(session, halt(session.phase).0),
            entry: Broadcaster { state: Signals::Terminate, ..entry },
            room,
        },
        other => other,
    }
}

/// Whether the engine has to be told when a state is left.
pub open spec fn shut_action(state: State) -> Action {
    match state {
        State::Hosting { session, .. } => halt(session.phase).1,
        State::Guesting { session, .. } => halt(session.phase).1,
        _ => Action::Idle,
    }
}

/// What may be asked of the application, and what may happen to it.
pub enum Request {
    /// The state is read.
    Touch { now: u64 },
    /// Back to waiting, whatever the state.
    Reset { now: u64 },
    /// Start to scan.
    Scan { now: u64 },
    /// A datagram arrived on the discovery channel.
    Hear { datagram: Seq<u8> },
    /// The session of the state is told of an event.
    Tell { event: Event },
    /// The running engine was looked at: the text of this node's address and
    /// the routes it knows.
    Look { address: Seq<char>, routes: Seq<Route> },
    /// The engine answered to the forwarding rules that were submitted for
    /// `forwards`.
    Forward { forwards: Seq<PortForward>, accepted: Seq<bool> },
    /// The clock ticked.
    Tick { now: u64 },
    /// Commit to hosting `room` with `session`, on a ticket drawn at `ticket`.
    Host { ticket: u64, room: u16, session: Session, now: u64 },
    /// Commit to being a guest of `room` with `session`.
    Guest { ticket: u64, room: u16, session: Session, now: u64 },
}

/// Whether a commit to hosting is in order: the application scans, nothing
/// happened since the ticket was drawn, and the room is the one heard first.
pub open spec fn may_host(m: Machine, ticket: u64, room: u16) -> bool {
    m.state matches State::Scanning { rooms, .. } && ticket == m.index && rooms.len() > 0
        && rooms[0] == room
}

/// Whether a commit to being a guest is in order: the application waits or
/// scans, nothing happened since the ticket was drawn, and the room can be
/// joined.
pub open spec fn may_guest(m: Machine, ticket: u64, room: u16) -> bool {
    (m.state is Waiting || m.state is Scanning) && ticket == m.index && valid_port(room)
}

/// The machine in another state, its index raised by one.
pub open spec fn moved(m: Machine, state: State) -> Machine {
    Machine { index: (m.index + 1) as u64, state, ..m }
}

/// The session of a state, if it has one.
pub open spec fn session_of(state: State) -> Option<Session> {
    match state {
        State::Hosting { session, .. } => Some(session),
        State::Guesting { session, .. } => Some(session),
        _ => None,
    }
}

/// A state with another session in the place of its own; a state without a
/// session stays as it is.
pub open spec fn with_session(state: State, session: Session) -> State {
    match state {
        State::Hosting { room, .. } => State::Hosting { session, room },
        State::Guesting { entry, room, .. } => State::Guesting { session, entry, room },
        other => other,
    }
}

/// A session after a look at the running engine: a live session remembers
/// what was seen.
pub open spec fn looked(session: Session, address: Seq<char>, routes: Seq<Route>) -> Session {
    if session.phase is Running {
        Session { address: node_address(address), cidrs: all_cidrs(routes), ..session }
    } else {
        session
    }
}

/// A session after the answers of the engine to the rules submitted for
/// `forwards`: a live session counts each accepted rule as applied.
pub open spec fn forwarded(session: Session, forwards: Seq<PortForward>, accepted: Seq<bool>) -> Session {
    if session.phase is Running {
        Session {
            applied: session.applied + accepted_rules(
                pending(session.applied, forwards),
                accepted,
                pending(session.applied, forwards).len() as int,
            ),
            ..session
        }
    } else {
        session
    }
}

/// The machine after a request.
pub open spec fn apply(m: Machine, request: Request) -> Machine {
    match request {
        Request::Look { address, routes } => match session_of(m.state) {
            Some(session) => Machine {
                state: with_session(m.state, looked(session, address, routes)),
                ..m
            },
            None => m,
        },
        Request::Forward { forwards, accepted } => match session_of(m.state) {
            Some(session) => Machine {
                state: with_session(m.state, forwarded(session, forwards, accepted)),
                ..m
            },
            None => m,
        },
        Request::Touch { now } => match m.state {
            State::Waiting { .. } => Machine { state: State::Waiting { begin: now }, ..m },
            State::Scanning { rooms, .. } => Machine {
                state: State::Scanning { begin: now, rooms },
                ..m
            },
            _ => m,
        },
        Request::Reset { now } => moved(m, State::Waiting { begin: now }),
        Request::Scan { now } => if m.state is Waiting {
            moved(m, State::Scanning { begin: now, rooms: Seq::empty() })
        } else {
            m
        },
        Request::Hear { datagram } => match m.state {
            State::Scanning { begin, rooms } => Machine {
                state: State::Scanning { begin, rooms: heard(rooms, datagram) },
                ..m
            },
            _ => m,
        },
        Request::Tell { event } => match m.state {
            State::Hosting { session, room } => Machine {
                state: State::Hosting {
                    session: in_phase(session, step(session.phase, event).0),
                    room,
                },
                ..m
            },
            State::Guesting { session, entry, room } => Machine {
                state: State::Guesting {
                    session: in_phase(session, step(session.phase, event).0),
                    entry,
                    room,
                },
                ..m
            },
            _ => m,
        },
        Request::Tick { now } => match m.state {
            State::Waiting { begin } => if elapsed(begin, now) >= m.timeout {
                Machine { state: State::Waiting { begin: now }, ..m }
            } else {
                m
            },
            State::Scanning { begin, .. } => if elapsed(begin, now) >= m.timeout {
                moved(m, State::Waiting { begin: now })
            } else {
                m
            },
            _ => if session_alive(m.state) {
                m
            } else {
                moved(m, State::Waiting { begin: now })
            },
        },
        Request::Host { ticket, room, session, now } => if !may_host(m, ticket, room) {
            m
        } else if session.phase is Running {
            moved(m, State::Hosting { session, room })
        } else {
            moved(m, State::Waiting { begin: now })
        },
        Request::Guest { ticket, room, session, now } => if !may_guest(m, ticket, room) {
            m
        } else if session.phase is Running {
            moved(m, State::Guesting { session, entry: entry_of(room), room })
        } else {
            moved(m, State::Waiting { begin: now })
        },
    }
}

/// Whether a state holds together: a session that is owned was alive when
/// the state was entered, so it is alive or over, and a guest advertises its
/// own room.
pub open spec fn consistent(state: State) -> bool {
    match state {
        State::Hosting { session, .. } => session.phase is Running || session.phase is Stopped,
        State::Guesting { session, entry, room } => (session.phase is Running
            || session.phase is Stopped) && entry == entry_of(room),
        _ => true,
    }
}

/// No request takes the machine to a state that does not hold together.
pub proof fn lemma_stays_consistent(m: Machine, request: Request)
    requires
        consistent(m.state),
    ensures
        consistent(apply(m, request).state),
{
}

/// The index never falls; it is raised by exactly one or not at all; and the
/// name of the state cannot change without it being raised.
pub proof fn lemma_index_tells(m: Machine, request: Request)
    requires
        m.index < u64::MAX,
    ensures
        apply(m, request).index == m.index || apply(m, request).index == m.index + 1,
        label_of(apply(m, request).state) != label_of(m.state) ==> apply(m, request).index
            == m.index + 1,
        apply(m, request).index == m.index ==> label_of(apply(m, request).state) == label_of(
            m.state,
        ),
        apply(m, request).timeout == m.timeout,
{
}

/// With the index unchanged, a session that is owned is still the same
/// session, told at most one event.
pub proof fn lemma_same_index_same_owner(m: Machine, request: Request)
    requires
        apply(m, request).index == m.index,
        m.index < u64::MAX,
    ensures
        m.state matches State::Hosting { session, room } ==> apply(m, request).state
            matches State::Hosting { session: after, room: same } && same == room && after.config
            == session.config,
        m.state matches State::Guesting { session, entry, room } ==> apply(m, request).state
            matches State::Guesting { session: after, entry: kept, room: same } && same == room
            && kept == entry && after.config == session.config,
{
}

/// An idle application that is left alone for the time of the timeout is
/// waiting after the next tick, with a fresh timer. Where it was waiting
/// already nothing happened, and the index stands; where it was scanning it
/// has left that state, and the index is raised.
pub proof fn lemma_idle_timeout(m: Machine, now: u64)
    requires
        m.index < u64::MAX,
        m.state matches State::Waiting { begin } ==> elapsed(begin, now) >= m.timeout,
        m.state matches State::Scanning { begin, .. } ==> elapsed(begin, now) >= m.timeout,
        m.state is Waiting || m.state is Scanning,
    ensures
        apply(m, Request::Tick { now }).state == (State::Waiting { begin: now }),
        m.state is Waiting ==> apply(m, Request::Tick { now }).index == m.index,
        m.state is Scanning ==> apply(m, Request::Tick { now }).index == m.index + 1,
{
}

/// Before the timeout a tick leaves an idle application as it is.
pub proof fn lemma_idle_in_time(m: Machine, now: u64)
    requires
        m.state matches State::Waiting { begin } ==> elapsed(begin, now) < m.timeout,
        m.state matches State::Scanning { begin, .. } ==> elapsed(begin, now) < m.timeout,
        m.state is Waiting || m.state is Scanning,
    ensures
        apply(m, Request::Tick { now }) == m,
{
}

/// Reading the state restarts the idle timer: a tick at the same instant
/// finds nothing to do, unless the timeout is zero.
pub proof fn lemma_touch_restarts(m: Machine, now: u64)
    requires
        m.timeout > 0,
        m.state is Waiting || m.state is Scanning,
    ensures
        apply(apply(m, Request::Touch { now }), Request::Tick { now }) == apply(
            m,
            Request::Touch { now },
        ),
{
}

/// A host or guest whose session is no longer alive is waiting after the
/// next tick, and the index is raised; one whose session is alive stays.
pub proof fn lemma_session_death(m: Machine, now: u64)
    requires
        m.index < u64::MAX,
        m.state is Hosting || m.state is Guesting,
    ensures
        !session_alive(m.state) ==> apply(m, Request::Tick { now }) == moved(
            m,
            State::Waiting { begin: now },
        ),
        session_alive(m.state) ==> apply(m, Request::Tick { now }) == m,
{
}

/// Once the engine has reported its exit, the next tick ends the state:
/// nothing that can be told to a session brings it back.
pub proof fn lemma_exit_ends_state(m: Machine, later: Event, now: u64)
    requires
        m.index < u64::MAX,
        m.state is Hosting || m.state is Guesting,
        consistent(m.state),
    ensures
        apply(
            apply(apply(m, Request::Tell { event: Event::Exited }), Request::Tell { event: later }),
            Request::Tick { now },
        ).state == (State::Waiting { begin: now }),
        apply(
            apply(apply(m, Request::Tell { event: Event::Exited }), Request::Tell { event: later }),
            Request::Tick { now },
        ).index == m.index + 1,
{
}

/// A state of hosting or of being a guest is entered with a live session
/// only, by a commit only, and a guest enters a room that can be joined.
pub proof fn lemma_entered_alive(m: Machine, request: Request)
    requires
        m.index < u64::MAX,
        m.state is Waiting || m.state is Scanning,
        apply(m, request).state is Hosting || apply(m, request).state is Guesting,
    ensures
        session_alive(apply(m, request).state),
        request is Host || request is Guest,
        apply(m, request).state matches State::Guesting { room, .. } ==> valid_port(room),
{
}

/// One tick. The index stays or rises by one. It rises exactly where a scan
/// has lasted for the time of the timeout or a session that is owned is no
/// longer alive, and the application waits then, since the tick. With the
/// index unchanged the state is unchanged, but for the timer of an
/// application that has waited for the time of the timeout, which is
/// restarted. No tick enters scanning, hosting or being a guest.
pub proof fn lemma_tick(m: Machine, now: u64)
    requires
        m.index < u64::MAX,
    ensures
        apply(m, Request::Tick { now }).index == m.index || apply(m, Request::Tick { now }).index
            == m.index + 1,
        apply(m, Request::Tick { now }).index == m.index + 1 <==> (m.state matches State::Scanning {
            begin,
            ..
        } && elapsed(begin, now) >= m.timeout) || ((m.state is Hosting || m.state is Guesting)
            && !session_alive(m.state)),
        apply(m, Request::Tick { now }).index == m.index + 1 ==> apply(
            m,
            Request::Tick { now },
        ).state == (State::Waiting { begin: now }),
        apply(m, Request::Tick { now }).index == m.index ==> apply(m, Request::Tick { now }).state
            == m.state || (m.state matches State::Waiting { begin } && elapsed(begin, now)
            >= m.timeout && apply(m, Request::Tick { now }).state == (State::Waiting {
            begin: now,
        })),
        label_of(apply(m, Request::Tick { now }).state) == label_of(m.state) || apply(
            m,
            Request::Tick { now },
        ).state is Waiting,
        apply(m, Request::Tick { now }).timeout == m.timeout,
{
}

/// A commit on a ticket that was drawn before any transition changes
/// nothing.
pub proof fn lemma_stale_ticket(m: Machine, ticket: u64, room: u16, session: Session, now: u64)
    requires
        ticket != m.index,
    ensures
        apply(m, Request::Host { ticket, room, session, now }) == m,
        apply(m, Request::Guest { ticket, room, session, now }) == m,
{
}

/// What is handed over when a state is left.
pub struct Release {
    /// The state that was left, shut down.
    pub left: AppState,
    /// `Abort` where the engine of the state has to be told to stop.
    pub engine: Action,
}

/// The leave to start a session and commit it.
pub struct Ticket {
    /// The index at which the ticket was drawn.
    pub index: u64,
    /// The room to host or to join.
    pub room: Room,
}

/// How a commit ended.
pub enum Commit {
    /// The state was entered.
    Entered { release: Release },
    /// The session was not alive: the application is waiting. The session is
    /// handed back, halted.
    Failed { release: Release, session: Easytier, engine: Action },
    /// The commit was not in order: nothing changed. The session is handed
    /// back, halted.
    Refused { session: Easytier, engine: Action },
}

/// What a tick found.
pub enum Tick {
    /// Nothing to do.
    Nothing,
    /// The application has waited for the time of the timeout.
    IdleExpired,
    /// The application scanned for the time of the timeout, and waits now.
    TimedOut { release: Release },
    /// A room was heard: it is to be hosted.
    Found { ticket: Ticket },
    /// The session was no longer alive: the application waits now.
    Lost { release: Release },
}

/// What an observer is told of the state.
#[derive(Debug, PartialEq, Eq)]
pub struct Report {
    pub index: u64,
    pub state: Label,
    /// The code of the hosted room, for a host.
    pub room: Option<String>,
    /// Where the game is reached on this machine, for a guest.
    pub url: Option<String>,
}

/// Where a guest reaches the game: `127.0.0.1` at the local port.
pub open spec fn local_url() -> Seq<char> {
    ascii_text(
        socket_text(
            SocketAddr { ip: IpAddr::V4(Ipv4Addr { a: 127, b: 0, c: 0, d: 1 }), port: LOCAL_PORT },
        ),
    )
}

/// The name of a state as it is shown: the word in lower case.
pub open spec fn label_name(label: Label) -> Seq<char> {
    match label {
        Label::Waiting => seq!['w', 'a', 'i', 't', 'i', 'n', 'g'],
        Label::Scanning => seq!['s', 'c', 'a', 'n', 'n', 'i', 'n', 'g'],
        Label::Hosting => seq!['h', 'o', 's', 't', 'i', 'n', 'g'],
        Label::Guesting => seq!['g', 'u', 'e', 's', 't', 'i', 'n', 'g'],
    }
}

impl Label {
    /// The name as it is shown.
    pub fn name(&self) -> (name: &'static str)
        ensures
            name@ == label_name(*self),
    {
        match self {
            Label::Waiting => {
                proof {
                    reveal_strlit("waiting");
                    assert("waiting"@ =~= label_name(Label::Waiting));
                }
                "waiting"
            },
            Label::Scanning => {
                proof {
                    reveal_strlit("scanning");
                    assert("scanning"@ =~= label_name(Label::Scanning));
                }
                "scanning"
            },
            Label::Hosting => {
                proof {
                    reveal_strlit("hosting");
                    assert("hosting"@ =~= label_name(Label::Hosting));
                }
                "hosting"
            },
            Label::Guesting => {
                proof {
                    reveal_strlit("guesting");
                    assert("guesting"@ =~= label_name(Label::Guesting));
                }
                "guesting"
            },
        }
    }
}

/// The time from `begin` to `now`; none where the clock reads earlier.
fn idle_time(begin: u64, now: u64) -> (out: u64)
    ensures
        out == elapsed(begin, now),
{
    if now >= begin {
        now - begin
    } else {
        0
    }
}

/// Shuts a state down for handing it over.
fn release(state: AppState) -> (out: Release)
    ensures
        out.left@ == shut(state@),
        out.engine == shut_action(state@),
{
    match state {
        AppState::Hosting { easytier, room } => {
            let mut easytier = easytier;
            let engine = easytier.stop();
            Release { left: AppState::Hosting { easytier, room }, engine }
        },
        AppState::Guesting { easytier, entry, room } => {
            let mut easytier = easytier;
            let mut entry = entry;
            let engine = easytier.stop();
            entry.terminate();
            Release { left: AppState::Guesting { easytier, entry, room }, engine }
        },
        other => Release { left: other, engine: Action::Idle },
    }
}

/// The application: its state and the index.
pub struct Server {
    index: u64,
    state: AppState,
    timeout: u64,
}

impl View for Server {
    type V = Machine;

    closed spec fn view(&self) -> Machine {
        Machine { index: self.index, state: self.state@, timeout: self.timeout }
    }
}

impl Server {
    #[verifier::type_invariant]
    spec fn well_formed(self) -> bool {
        consistent(self.state@)
    }

    /// An application that waits since `now`, with index 0.
    pub fn new(now: u64, timeout: u64) -> (server: Server)
        ensures
            server@ == (Machine { index: 0, state: State::Waiting { begin: now }, timeout }),
    {
        Server { index: 0, state: AppState::Waiting { begin: now }, timeout }
    }

    /// The index.
    pub fn index(&self) -> (index: u64)
        ensures
            index == self@.index,
    {
        self.index
    }

    /// The name of the state. The state holds together, as it always does.
    pub fn label(&self) -> (label: Label)
        ensures
            label == label_of(self@.state),
            consistent(self@.state),
    {
        proof {
            use_type_invariant(self);
        }
        match &self.state {
            AppState::Waiting { .. } => Label::Waiting,
            AppState::Scanning { .. } => Label::Scanning,
            AppState::Hosting { .. } => Label::Hosting,
            AppState::Guesting { .. } => Label::Guesting,
        }
    }

    /// Takes the state out, leaving the application waiting since `now`.
    fn take_state(&mut self, now: u64) -> (state: AppState)
        ensures
            state == old(self).state,
            final(self).state == (AppState::Waiting { begin: now }),
            final(self).index == old(self).index,
            final(self).timeout == old(self).timeout,
            consistent(state@),
    {
        proof {
            use_type_invariant(&*self);
        }
        let mut state = AppState::Waiting { begin: now };
        std::mem::swap(&mut self.state, &mut state);
        state
    }

    /// Notes that the state is read: an idle application is idle since `now`.
    pub fn access_state(&mut self, now: u64)
        ensures
            final(self)@ == apply(old(self)@, Request::Touch { now }),
    {
        let state = self.take_state(now);
        match state {
            AppState::Waiting { .. } => {},
            AppState::Scanning { begin: _, scanner } => {
                self.state = AppState::Scanning { begin: now, scanner };
            },
            other => {
                self.state = other;
            },
        }
    }

    /// Reads the state for an observer. Reading counts as activity.
    pub fn get_state(&mut self, now: u64) -> (report: Report)
        ensures
            final(self)@ == apply(old(self)@, Request::Touch { now }),
            report.index == old(self)@.index,
            report.state == label_of(old(self)@.state),
            match old(self)@.state {
                State::Hosting { room, .. } => report.room is Some && report.room.unwrap()@
                    == ascii_text(encode(room)) && report.url is None,
                State::Guesting { .. } => report.room is None && report.url is Some
                    && report.url.unwrap()@ == local_url(),
                _ => report.room is None && report.url is None,
            },
    {
        self.access_state(now);
        match &self.state {
            AppState::Waiting { .. } => Report {
                index: self.index,
                state: Label::Waiting,
                room: None,
                url: None,
            },
            AppState::Scanning { .. } => Report {
                index: self.index,
                state: Label::Scanning,
                room: None,
                url: None,
            },
            AppState::Hosting { room, .. } => Report {
                index: self.index,
                state: Label::Hosting,
                room: Some(room.code().clone()),
                url: None,
            },
            AppState::Guesting { .. } => {
                let mut bytes: Vec<u8> = Vec::new();
                let local = SocketAddr::new(IpAddr::V4(Ipv4Addr::new(127, 0, 0, 1)), LOCAL_PORT);
                local.write_text(&mut bytes);
                assert(bytes@ =~= socket_text(local));
                Report {
                    index: self.index,
                    state: Label::Guesting,
                    room: None,
                    url: Some(to_text(&bytes)),
                }
            },
        }
    }

    /// Back to waiting, whatever the state. What was owned is handed over.
    pub fn set_state_ide(&mut self, now: u64) -> (out: Release)
        requires
            old(self)@.index < u64::MAX,
        ensures
            final(self)@ == apply(old(self)@, Request::Reset { now }),
            out.left@ == shut(old(self)@.state),
            out.engine == shut_action(old(self)@.state),
    {
        let state = self.take_state(now);
        self.index = self.index + 1;
        release(state)
    }

    /// Starts to scan, if the application waits. True if it did.
    pub fn set_state_scanning(&mut self, now: u64) -> (started: bool)
        requires
            old(self)@.index < u64::MAX,
        ensures
            final(self)@ == apply(old(self)@, Request::Scan { now }),
            started == (old(self)@.state is Waiting),
    {
        match &self.state {
            AppState::Waiting { .. } => {
                self.index = self.index + 1;
                self.state = AppState::Scanning { begin: now, scanner: Scanning::create() };
                true
            },
            _ => false,
        }
    }

    /// Takes a datagram from the discovery channel. True if the application
    /// scans and the datagram advertised a room not heard before.
    pub fn receive(&mut self, datagram: &Vec<u8>) -> (fresh: bool)
        ensures
            final(self)@ == apply(old(self)@, Request::Hear { datagram: datagram@ }),
            fresh == (final(self)@ != old(self)@),
    {
        let state = self.take_state(0);
        match state {
            AppState::Scanning { begin, scanner } => {
                let mut scanner = scanner;
                let fresh = scanner.receive(datagram);
                self.state = AppState::Scanning { begin, scanner };
                fresh
            },
            other => {
                self.state = other;
                false
            },
        }
    }

    /// Tells the session of the state of an event, and says what it asks for.
    /// Without a session nothing happens.
    pub fn tell(&mut self, event: Event) -> (action: Action)
        ensures
            final(self)@ == apply(old(self)@, Request::Tell { event }),
            action == match old(self)@.state {
                State::Hosting { session, .. } => step(session.phase, event).1,
                State::Guesting { session, .. } => step(session.phase, event).1,
                _ => Action::Idle,
            },
    {
        let state = self.take_state(0);
        match state {
            AppState::Hosting { easytier, room } => {
                let mut easytier = easytier;
                let action = easytier.advance(event);
                self.state = AppState::Hosting { easytier, room };
                action
            },
            AppState::Guesting { easytier, entry, room } => {
                let mut easytier = easytier;
                let action = easytier.advance(event);
                self.state = AppState::Guesting { easytier, entry, room };
                action
            },
            other => {
                self.state = other;
                Action::Idle
            },
        }
    }

    /// Takes a look at the running engine for the session of the state, and
    /// returns the request for the platform where the address or the
    /// networks have changed. Without a live session nothing happens.
    pub fn look(&mut self, address: &str, routes: &Vec<Route>) -> (out: Option<EasyTierTunRequest>)
        ensures
            final(self)@ == apply(
                old(self)@,
                Request::Look { address: address@, routes: routes@ },
            ),
            out is Some <==> session_alive(old(self)@.state) && node_address(address@) is Some && (
            session_of(old(self)@.state).unwrap().address != node_address(address@) || session_of(
                old(self)@.state,
            ).unwrap().cidrs != all_cidrs(routes@)),
            out matches Some(request) ==> node_address(address@) == Some(
                (request.address, request.network_length),
            ) && texts(request.cidrs@) == all_cidrs(routes@),
    {
        let state = self.take_state(0);
        match state {
            AppState::Hosting { easytier, room } => {
                let mut easytier = easytier;
                let out = easytier.reconcile(address, routes);
                self.state = AppState::Hosting { easytier, room };
                out
            },
            AppState::Guesting { easytier, entry, room } => {
                let mut easytier = easytier;
                let out = easytier.reconcile(address, routes);
                self.state = AppState::Guesting { easytier, entry, room };
                out
            },
            other => {
                self.state = other;
                None
            },
        }
    }

    /// The peers of the session of the state, from the routes the engine
    /// gave. Empty without a live session and without an answer.
    pub fn get_players(&self, reply: Option<Vec<Route>>) -> (out: Vec<(String, Ipv4Addr)>)
        ensures
            player_views(out@) == match reply {
                Some(routes) => if session_alive(self@.state) {
                    players(routes@)
                } else {
                    Seq::empty()
                },
                None => Seq::empty(),
            },
    {
        match &self.state {
            AppState::Hosting { easytier, .. } => easytier.get_players(reply),
            AppState::Guesting { easytier, .. } => easytier.get_players(reply),
            _ => {
                let out: Vec<(String, Ipv4Addr)> = Vec::new();
                assert(player_views(out@) =~= Seq::empty());
                out
            },
        }
    }

    /// The rules of `forwards` that are to be submitted to the engine for
    /// the session of the state: each rule that is not applied yet, once.
    /// None without a live session.
    pub fn pending_port_forwards(&self, forwards: &Vec<PortForward>) -> (out: Vec<PortForward>)
        ensures
            out@ == if session_alive(self@.state) {
                pending(session_of(self@.state).unwrap().applied, forwards@)
            } else {
                Seq::empty()
            },
    {
        match &self.state {
            AppState::Hosting { easytier, .. } => easytier.pending_port_forwards(forwards),
            AppState::Guesting { easytier, .. } => easytier.pending_port_forwards(forwards),
            _ => Vec::new(),
        }
    }

    /// Records what the engine answered to the rules that were submitted for
    /// `forwards`. True if there is a live session and no rule was refused.
    pub fn add_port_forward(&mut self, forwards: &Vec<PortForward>, accepted: &Vec<bool>) -> (ok:
        bool)
        ensures
            final(self)@ == apply(
                old(self)@,
                Request::Forward { forwards: forwards@, accepted: accepted@ },
            ),
            ok == (session_alive(old(self)@.state) && all_accepted(
                accepted@,
                pending(session_of(old(self)@.state).unwrap().applied, forwards@).len() as int,
            )),
    {
        let state = self.take_state(0);
        match state {
            AppState::Hosting { easytier, room } => {
                let mut easytier = easytier;
                let ok = easytier.add_port_forward(forwards, accepted);
                self.state = AppState::Hosting { easytier, room };
                ok
            },
            AppState::Guesting { easytier, entry, room } => {
                let mut easytier = easytier;
                let ok = easytier.add_port_forward(forwards, accepted);
                self.state = AppState::Guesting { easytier, entry, room };
                ok
            },
            other => {
                self.state = other;
                false
            },
        }
    }

    /// What the broadcaster of a guest does when it wakes up, and the
    /// advertisement it sends. Without a broadcaster there is nothing to
    /// send and the loop is to be left.
    pub fn broadcast(&self) -> (out: (Round, Vec<u8>))
        ensures
            match self@.state {
                State::Guesting { entry, .. } => out.0 == round_of(entry.state) && out.1@ == advert(
                    entry.room,
                    entry.port,
                ),
                _ => out.0 == Round::Quit && out.1@ == Seq::<u8>::empty(),
            },
    {
        match &self.state {
            AppState::Guesting { entry, .. } => (entry.round(), entry.message()),
            _ => (Round::Quit, Vec::new()),
        }
    }

    /// Looks at the clock and at what is owned, and makes the transitions
    /// that are due: an idle time that is over, a session that is gone. Where
    /// the application scans and has heard a room, hands out the ticket to
    /// host the one heard first.
    pub fn tick(&mut self, now: u64) -> (out: Tick)
        requires
            old(self)@.index < u64::MAX,
        ensures
            final(self)@ == apply(old(self)@, Request::Tick { now }),
            match old(self)@.state {
                State::Waiting { begin } => if elapsed(begin, now) >= old(self)@.timeout {
                    out is IdleExpired
                } else {
                    out is Nothing
                },
                State::Scanning { begin, rooms } => if elapsed(begin, now) >= old(self)@.timeout {
                    out matches Tick::TimedOut { release } && release.left@ == old(self)@.state
                        && release.engine == Action::Idle
                } else if rooms.len() > 0 {
                    out matches Tick::Found { ticket } && ticket.index == old(self)@.index
                        && ticket.room@ == rooms[0]
                } else {
                    out is Nothing
                },
                _ => if session_alive(old(self)@.state) {
                    out is Nothing
                } else {
                    out matches Tick::Lost { release } && release.left@ == shut(old(self)@.state)
                        && release.engine == shut_action(old(self)@.state)
                },
            },
    {
        let state = self.take_state(now);
        match state {
            AppState::Waiting { begin } => {
                if idle_time(begin, now) >= self.timeout {
                    Tick::IdleExpired
                } else {
                    self.state = AppState::Waiting { begin };
                    Tick::Nothing
                }
            },
            AppState::Scanning { begin, scanner } => {
                if idle_time(begin, now) >= self.timeout {
                    self.index = self.index + 1;
                    Tick::TimedOut { release: release(AppState::Scanning { begin, scanner }) }
                } else {
                    let first = scanner.first();
                    let index = self.index;
                    self.state = AppState::Scanning { begin, scanner };
                    match first {
                        Some(room) => Tick::Found { ticket: Ticket { index, room } },
                        None => Tick::Nothing,
                    }
                }
            },
            AppState::Hosting { easytier, room } => {
                if easytier.is_alive() {
                    self.state = AppState::Hosting { easytier, room };
                    Tick::Nothing
                } else {
                    self.index = self.index + 1;
                    Tick::Lost { release: release(AppState::Hosting { easytier, room }) }
                }
            },
            AppState::Guesting { easytier, entry, room } => {
                if easytier.is_alive() {
                    self.state = AppState::Guesting { easytier, entry, room };
                    Tick::Nothing
                } else {
                    self.index = self.index + 1;
                    Tick::Lost { release: release(AppState::Guesting { easytier, entry, room }) }
                }
            },
        }
    }

    /// Draws the ticket to join the room that `code` names. `None` unless the
    /// application waits or scans and `code` is the code of a room that can
    /// be joined.
    pub fn plan_guesting(&self, code: &str) -> (out: Option<Ticket>)
        ensures
            out matches Some(ticket) ==> (self@.state is Waiting || self@.state is Scanning)
                && ticket.index == self@.index && valid_port(ticket.room@) && code@ == ascii_text(
                encode(ticket.room@),
            ),
            out is None ==> !(self@.state is Waiting || self@.state is Scanning) || forall|
                port: u16,
            |
                valid_port(port) ==> code@ != ascii_text(#[trigger] encode(port)),
    {
        match &self.state {
            AppState::Waiting { .. } | AppState::Scanning { .. } => match Room::from(code) {
                Some(room) => Some(Ticket { index: self.index, room }),
                None => None,
            },
            _ => None,
        }
    }

    /// Commits to hosting the room of the ticket with a session started for
    /// it.
    ///
    /// In order only while the application scans, at the index of the
    /// ticket, for the room heard first. Then the application is host if the
    /// session is alive, and waits if it is not.
    pub fn set_state_hosting(&mut self, ticket: Ticket, easytier: Easytier, now: u64) -> (out:
        Commit)
        requires
            old(self)@.index < u64::MAX,
        ensures
            final(self)@ == apply(
                old(self)@,
                Request::Host { ticket: ticket.index, room: ticket.room@, session: easytier@, now },
            ),
            committed(
                out,
                old(self)@.state,
                may_host(old(self)@, ticket.index, ticket.room@),
                easytier@,
            ),
    {
        let in_order = match &self.state {
            AppState::Scanning { scanner, .. } => {
                match scanner.first() {
                    Some(first) => ticket.index == self.index && first.port() == ticket.room.port(),
                    None => false,
                }
            },
            _ => false,
        };
        if !in_order {
            let mut easytier = easytier;
            let engine = easytier.stop();
            return Commit::Refused { session: easytier, engine };
        }
        let state = self.take_state(now);
        self.index = self.index + 1;
        if easytier.is_alive() {
            self.state = AppState::Hosting { easytier, room: ticket.room };
            Commit::Entered { release: release(state) }
        } else {
            let mut easytier = easytier;
            let engine = easytier.stop();
            Commit::Failed { release: release(state), session: easytier, engine }
        }
    }

    /// Commits to being a guest of the room of the ticket with a session
    /// started for it.
    ///
    /// In order only while the application waits or scans, at the index of
    /// the ticket, for a room that can be joined. Then the application is a
    /// guest, advertising the room on
    /// this machine, if the session is alive, and waits if it is not.
    pub fn set_state_guesting(&mut self, ticket: Ticket, easytier: Easytier, now: u64) -> (out:
        Commit)
        requires
            old(self)@.index < u64::MAX,
        ensures
            final(self)@ == apply(
                old(self)@,
                Request::Guest { ticket: ticket.index, room: ticket.room@, session: easytier@, now },
            ),
            committed(
                out,
                old(self)@.state,
                may_guest(old(self)@, ticket.index, ticket.room@),
                easytier@,
            ),
    {
        let in_order = match &self.state {
            AppState::Waiting { .. } | AppState::Scanning { .. } => ticket.index == self.index
                && ticket.room.joinable(),
            _ => false,
        };
        if !in_order {
            let mut easytier = easytier;
            let engine = easytier.stop();
            return Commit::Refused { session: easytier, engine };
        }
        let state = self.take_state(now);
        self.index = self.index + 1;
        if easytier.is_alive() {
            let mut entry = crate::fakeserver::create(LOCAL_PORT, &ticket.room);
            entry.activate();
            self.state = AppState::Guesting { easytier, entry, room: ticket.room };
            Commit::Entered { release: release(state) }
        } else {
            let mut easytier = easytier;
            let engine = easytier.stop();
            Commit::Failed { release: release(state), session: easytier, engine }
        }
    }
}

/// What a commit hands back: which of the three ways it went, the state that
/// was left, and the session where it was not taken.
pub open spec fn committed(out: Commit, before: State, in_order: bool, session: Session) -> bool {
    match out {
        Commit::Entered { release } => in_order && session.phase is Running && release.left@
            == shut(before) && release.engine == shut_action(before),
        Commit::Failed { release, session: back, engine } => in_order && !(session.phase
            is Running) && release.left@ == shut(before) && release.engine == shut_action(before)
            && back@ == in_phase(session, halt(session.phase).0) && engine == halt(session.phase).1,
        Commit::Refused { session: back, engine } => !in_order && back@ == in_phase(
            session,
            halt(session.phase).0,
        ) && engine == halt(session.phase).1,
    }
}

} // verus!
