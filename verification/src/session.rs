//! One connection to the service, as a state machine.
//!
//! A session is opened, awaits a registration, is active, and is closed.
//! It is fed the lines that come in and the events of the bus, and says for
//! each what is to be written to the connection. Reading and writing are
//! the caller's.

use crate::chatsvc::{gen_id, is_id, ChatService, DirectoryView, Message};
use crate::errors::{describe, ChatErrors, ChatErrorsView};
use crate::event::handler::{apply_event, directory_after, step_of, Step, StepView};
use crate::event::{decode, Event, EventView};
use vstd::prelude::*;
use vstd::string::StringExecFns;

verus! {

/// The first line that a connection is sent.
pub const WELCOME: &'static str = "------Welcome to Txt Chat------";

/// Where a session stands.
#[derive(Debug, Clone, Copy, PartialEq, Eq, Structural)]
pub enum SessionState {
    /// Accepted; nothing was sent yet.
    Connecting,
    /// Welcomed; only a registration is taken.
    AwaitingRegistration,
    /// Registered; commands are carried out and messages delivered.
    Active,
    /// Over; nothing is taken and nothing delivered.
    Closed,
}

/// One connection: where it stands and, once it is active, the id of its
/// user.
pub struct Session {
    state: SessionState,
    user_id: String,
}

/// A session as the contracts see it.
pub struct SessionView {
    pub state: SessionState,
    pub user_id: Seq<char>,
}

/// What the bus hands to a listener.
#[derive(Debug)]
pub enum BusEvent {
    /// A message that was published.
    Delivered(Message),
    /// The listener fell behind and this many messages were lost to it.
    Lagged(u64),
    /// The bus is gone.
    Closed,
}

/// What is to be done about an event of the bus.
#[derive(Debug)]
pub enum Outbound {
    /// Write this line to the connection.
    Write(String),
    /// Nothing is to be written; go on listening.
    Skip,
    /// Stop listening.
    Stop,
}

impl View for Session {
    type V = SessionView;

    closed spec fn view(&self) -> SessionView {
        SessionView { state: self.state, user_id: self.user_id@ }
    }
}

/// What a command other than a registration is refused with before the
/// registration.
pub open spec fn not_registered() -> ChatErrorsView {
    ChatErrorsView::InvalidCommand("reg is needed first"@)
}

/// What a second registration is refused with.
pub open spec fn already_registered() -> ChatErrorsView {
    ChatErrorsView::InvalidCommand("already registered"@)
}

/// A line is refused: the error is written back and recorded.
pub open spec fn refusal(e: ChatErrorsView) -> StepView {
    StepView { reply: Some(describe(e)), error: Some(e) }
}

/// `line` registers a user, under this name.
pub open spec fn registers(line: Seq<char>) -> Option<Seq<char>> {
    match decode(line) {
        Ok(EventView::Register { username }) => Some(username),
        _ => None,
    }
}

/// The session after `line` came in, where `fresh` is the id at hand for a
/// new user. Only a registration under an unused id changes it: the
/// session is then active, with that id.
pub open spec fn session_after(
    s: SessionView,
    d: DirectoryView,
    line: Seq<char>,
    fresh: Seq<char>,
) -> SessionView {
    if s.state == SessionState::AwaitingRegistration && registers(line) is Some && d.unused(fresh) {
        SessionView { state: SessionState::Active, user_id: fresh }
    } else {
        s
    }
}

/// The directory after `line` came in on session `s`, where `fresh` is the
/// id at hand for a new user or a new room.
pub open spec fn directory_after_line(
    s: SessionView,
    d: DirectoryView,
    line: Seq<char>,
    fresh: Seq<char>,
) -> DirectoryView {
    match s.state {
        SessionState::AwaitingRegistration => match registers(line) {
            Some(username) => directory_after(d, fresh, EventView::Register { username }, fresh),
            None => d,
        },
        SessionState::Active => match decode(line) {
            Ok(ev) => if ev is Register {
                d
            } else {
                directory_after(d, s.user_id, ev, fresh)
            },
            Err(_) => d,
        },
        _ => d,
    }
}

/// What comes of `line` on session `s`, where `fresh` is the id at hand
/// for a new user or a new room.
///
/// Before the registration a registration is carried out, and any other
/// line is refused: the error goes back to the connection. On an active
/// session a line that does not decode, and a second registration, are
/// recorded and not answered; any other command is carried out. A session
/// that was not opened, or is closed, takes no line.
pub open spec fn step_of_line(
    s: SessionView,
    d: DirectoryView,
    line: Seq<char>,
    fresh: Seq<char>,
) -> StepView {
    match s.state {
        SessionState::AwaitingRegistration => match decode(line) {
            Ok(ev) => if ev is Register {
                step_of(d, fresh, ev, fresh)
            } else {
                refusal(not_registered())
            },
            Err(e) => refusal(e),
        },
        SessionState::Active => match decode(line) {
            Ok(ev) => if ev is Register {
                StepView::failed(already_registered())
            } else {
                step_of(d, s.user_id, ev, fresh)
            },
            Err(e) => StepView::failed(e),
        },
        _ => StepView::silent(),
    }
}

/// What is to be done about event `ev` of the bus on session `s`: a
/// message for a room of which the session's user is a member is written,
/// any other message and a notice of lost messages are passed over, and
/// the end of the bus stops the listening.
pub open spec fn delivery(s: SessionView, d: DirectoryView, ev: BusEvent) -> Option<Seq<char>> {
    match ev {
        BusEvent::Delivered(m) => if s.state == SessionState::Active && d.is_member(
            s.user_id,
            m.chan_id@,
        ) {
            Some(m.content@)
        } else {
            None
        },
        _ => None,
    }
}

/// A step that writes the error back and records it.
fn refuse(e: ChatErrors) -> (step: Step)
    ensures
        step@ == refusal(e@),
{
    Step { reply: Some(e.to_string()), error: Some(e) }
}

impl Session {
    /// A session that was accepted and not yet opened.
    pub fn new() -> (s: Session)
        ensures
            s@ == (SessionView { state: SessionState::Connecting, user_id: Seq::empty() }),
    {
        Session { state: SessionState::Connecting, user_id: String::new() }
    }

    /// Where the session stands.
    pub fn state(&self) -> (state: SessionState)
        ensures
            state == self@.state,
    {
        self.state
    }

    /// The id of the session's user; empty before the registration.
    pub fn user_id(&self) -> (id: String)
        ensures
            id@ == self@.user_id,
    {
        self.user_id.clone()
    }

    /// Opens the session: it now awaits a registration, and the welcome is
    /// to be written. A session that was opened before is left as it is.
    pub fn start(&mut self) -> (line: Option<String>)
        ensures
            old(self)@.state == SessionState::Connecting ==> {
                &&& final(self)@.state == SessionState::AwaitingRegistration
                &&& final(self)@.user_id == old(self)@.user_id
                &&& line matches Some(text)
                &&& text@ == "------Welcome to Txt Chat------"@
            },
            old(self)@.state != SessionState::Connecting ==> {
                &&& final(self)@ == old(self)@
                &&& line is None
            },
    {
        match self.state {
            SessionState::Connecting => {
                self.state = SessionState::AwaitingRegistration;
                Some(String::from_str(WELCOME))
            },
            _ => None,
        }
    }

    /// Closes the session, whatever its state.
    pub fn close(&mut self)
        ensures
            final(self)@.state == SessionState::Closed,
            final(self)@.user_id == old(self)@.user_id,
    {
        self.state = SessionState::Closed;
    }

    /// Takes one line that came in, with `fresh` as the id of a user or a
    /// room that the line makes.
    pub fn on_line_with(&mut self, svc: &mut ChatService, line: String, fresh: String) -> (step:
        Step)
        ensures
            final(self)@ == session_after(old(self)@, old(svc)@, line@, fresh@),
            final(svc)@ == directory_after_line(old(self)@, old(svc)@, line@, fresh@),
            step@ == step_of_line(old(self)@, old(svc)@, line@, fresh@),
    {
        match self.state {
            SessionState::AwaitingRegistration => match Event::from_string(line) {
                Ok(Event::Register { username }) => {
                    let step = apply_event(
                        fresh.clone(),
                        svc,
                        Event::Register { username },
                        fresh.clone(),
                    );
                    if step.reply.is_some() {
                        self.state = SessionState::Active;
                        self.user_id = fresh;
                    }
                    step
                },
                Ok(_) => refuse(ChatErrors::InvalidCommand(String::from_str("reg is needed first"))),
                Err(e) => refuse(e),
            },
            SessionState::Active => match Event::from_string(line) {
                Ok(Event::Register { .. }) => Step {
                    reply: None,
                    error: Some(ChatErrors::InvalidCommand(String::from_str("already registered"))),
                },
                Ok(ev) => apply_event(self.user_id.clone(), svc, ev, fresh),
                Err(e) => Step { reply: None, error: Some(e) },
            },
            _ => Step { reply: None, error: None },
        }
    }

    /// Takes one line that came in. The id of a user or a room that the
    /// line makes is drawn at random.
    pub fn on_line(&mut self, svc: &mut ChatService, line: String) -> (step: Step)
        ensures
            exists|fresh: Seq<char>|
                {
                    &&& is_id(fresh)
                    &&& final(self)@ == #[trigger] session_after(
                        old(self)@,
                        old(svc)@,
                        line@,
                        fresh,
                    )
                    &&& final(svc)@ == directory_after_line(old(self)@, old(svc)@, line@, fresh)
                    &&& step@ == step_of_line(old(self)@, old(svc)@, line@, fresh)
                },
    {
        let fresh = gen_id();
        self.on_line_with(svc, line, fresh)
    }

    /// Takes one event of the bus and says what is to be done about it.
    pub fn on_bus_event(&self, svc: &ChatService, ev: BusEvent) -> (out: Outbound)
        ensures
            match out {
                Outbound::Write(line) => delivery(self@, svc@, ev) == Some(line@),
                Outbound::Skip => delivery(self@, svc@, ev) is None && !(ev is Closed),
                Outbound::Stop => ev is Closed,
            },
    {
        match ev {
            BusEvent::Delivered(m) => {
                if self.state == SessionState::Active && svc.is_user_sub(&self.user_id, &m.chan_id) {
                    Outbound::Write(m.to_string())
                } else {
                    Outbound::Skip
                }
            },
            BusEvent::Lagged(_) => Outbound::Skip,
            BusEvent::Closed => Outbound::Stop,
        }
    }
}

/// A line is written to a session only for a message, and only where the
/// session's user is a member of the room that the message is for.
pub proof fn lemma_only_members_receive(s: SessionView, d: DirectoryView, ev: BusEvent)
    requires
        delivery(s, d, ev) is Some,
    ensures
        ev matches BusEvent::Delivered(m) && d.is_member(s.user_id, m.chan_id@) && delivery(s, d, ev)
            == Some(m.content@),
{
}

/// A line moves a session from awaiting the registration to active, or
/// leaves it where it stands; and a session that is not open, or is
/// closed, leaves the directory as it is and has nothing written.
pub proof fn lemma_line_only_advances(
    s: SessionView,
    d: DirectoryView,
    line: Seq<char>,
    fresh: Seq<char>,
)
    ensures
        session_after(s, d, line, fresh) == s || (s.state == SessionState::AwaitingRegistration
            && session_after(s, d, line, fresh).state == SessionState::Active),
        session_after(s, d, line, fresh).state == SessionState::Active && s.state
            != SessionState::Active ==> directory_after_line(s, d, line, fresh).is_member(
            session_after(s, d, line, fresh).user_id,
            session_after(s, d, line, fresh).user_id,
        ),
        s.state == SessionState::Connecting || s.state == SessionState::Closed ==> {
            &&& directory_after_line(s, d, line, fresh) == d
            &&& step_of_line(s, d, line, fresh) == StepView::silent()
        },
{
}

} // verus!
