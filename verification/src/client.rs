//! The client's side: what it knows of its rooms, the lines it sends, and
//! the answers it reads.
//!
//! What the user types is a directive or a message. A directive begins
//! with `$`, and its argument follows a blank: `$join <room id>`,
//! `$leave <room id>`, `$create_chan <room name>` are sent to the service
//! as commands, and `$switch <room id>` changes the current room without
//! a word to the service. Anything else is a message for the current room.

use crate::errors::{ChatErrors, ChatErrorsView};
use crate::event::{encode, response, Event, EventView};
use crate::strset::StrSet;
use crate::text::{begins_with, has_sep, head, same_text, split_first, starts_with, tail};
use vstd::prelude::*;
use vstd::string::StringExecFns;

verus! {

/// What the client knows: its user's id and name, the personal room, the
/// room that messages go to, and the rooms it has joined.
#[derive(Debug)]
pub struct ClientState {
    pub user_id: String,
    pub username: String,
    pub user_chan: String,
    pub current_chan: String,
    pub joined_chans: StrSet,
}

/// A `ClientState` as the contracts see it.
pub struct ClientView {
    pub user_id: Seq<char>,
    pub username: Seq<char>,
    pub user_chan: Seq<char>,
    pub current_chan: Seq<char>,
    pub joined_chans: Set<Seq<char>>,
}

impl View for ClientState {
    type V = ClientView;

    open spec fn view(&self) -> ClientView {
        ClientView {
            user_id: self.user_id@,
            username: self.username@,
            user_chan: self.user_chan@,
            current_chan: self.current_chan@,
            joined_chans: self.joined_chans@,
        }
    }
}

impl ClientView {
    /// The state with `chan` among the joined rooms.
    pub open spec fn append_chan(self, chan: Seq<char>) -> ClientView {
        ClientView { joined_chans: self.joined_chans.insert(chan), ..self }
    }

    /// The state after room `chan` was left: it is no longer among the
    /// joined rooms, and where it was the current room, the personal room
    /// is current.
    pub open spec fn leave_chan(self, chan: Seq<char>) -> ClientView {
        ClientView {
            joined_chans: self.joined_chans.remove(chan),
            current_chan: if self.current_chan == chan {
                self.user_chan
            } else {
                self.current_chan
            },
            ..self
        }
    }

    /// The state with `chan` as the current room, and among the joined
    /// rooms.
    pub open spec fn switch_chan(self, chan: Seq<char>) -> ClientView {
        ClientView { current_chan: chan, joined_chans: self.joined_chans.insert(chan), ..self }
    }

    /// The state after the service answered the registration of `name`
    /// with room `id`: `id` is the user's id, the personal room and the
    /// current room, and is among the joined rooms.
    pub open spec fn registered(self, name: Seq<char>, id: Seq<char>) -> ClientView {
        ClientView {
            user_id: id,
            username: name,
            user_chan: id,
            current_chan: id,
            joined_chans: self.joined_chans.insert(id),
        }
    }
}

impl ClientState {
    /// The state of a client with id `user_id` that has joined no room.
    pub fn new(user_id: String) -> (state: ClientState)
        ensures
            state@ == (ClientView {
                user_id: user_id@,
                username: Seq::empty(),
                user_chan: Seq::empty(),
                current_chan: Seq::empty(),
                joined_chans: Set::empty(),
            }),
    {
        ClientState {
            user_id,
            username: String::new(),
            user_chan: String::new(),
            current_chan: String::new(),
            joined_chans: StrSet::new(),
        }
    }

    /// Sets the user's id.
    pub fn set_uid(&mut self, uid: String)
        ensures
            final(self)@ == (ClientView { user_id: uid@, ..old(self)@ }),
    {
        self.user_id = uid;
    }

    /// Notes that room `chan_id` was joined.
    pub fn append_chan(&mut self, chan_id: String)
        ensures
            final(self)@ == old(self)@.append_chan(chan_id@),
    {
        let _ = self.joined_chans.insert(chan_id);
    }

    /// Notes that room `chan_id` was left.
    pub fn leave_chan(&mut self, chan_id: String)
        ensures
            final(self)@ == old(self)@.leave_chan(chan_id@),
    {
        let _ = self.joined_chans.remove(&chan_id);
        if self.current_chan == chan_id {
            self.current_chan = self.user_chan.clone();
        }
    }

    /// Makes `new_chan` the current room, and notes it as joined.
    pub fn switch_chan(&mut self, new_chan: String)
        ensures
            final(self)@ == old(self)@.switch_chan(new_chan@),
    {
        self.current_chan = new_chan.clone();
        self.append_chan(new_chan);
    }
}

/// The line that registers `uname`.
pub fn encode_reg(uname: String) -> (line: String)
    ensures
        line@ == encode(EventView::Register { username: uname@ }),
{
    Event::Register { username: uname }.encode()
}

/// The line by which the client's user joins room `chan_id`.
pub fn encode_join(state: &ClientState, chan_id: String) -> (line: String)
    ensures
        line@ == encode(EventView::JoinChan { user_id: state.user_id@, chan_id: chan_id@ }),
{
    Event::JoinChan { user_id: state.user_id.clone(), chan_id }.encode()
}

/// The line by which the client's user leaves room `chan_id`.
pub fn encode_leave(state: &ClientState, chan_id: String) -> (line: String)
    ensures
        line@ == encode(EventView::LeaveChan { user_id: state.user_id@, chan_id: chan_id@ }),
{
    Event::LeaveChan { user_id: state.user_id.clone(), chan_id }.encode()
}

/// The line by which the client's user makes a room named `chan_name`.
pub fn encode_create_chan(state: &ClientState, chan_name: String) -> (line: String)
    ensures
        line@ == encode(EventView::CreateChan { user_id: state.user_id@, chan_name: chan_name@ }),
{
    Event::CreateChan { user_id: state.user_id.clone(), chan_name }.encode()
}

/// The line that sends `msg` to the current room, where there is one.
pub open spec fn send_line(state: ClientView, msg: Seq<char>) -> Option<Seq<char>> {
    if state.current_chan.len() == 0 {
        None
    } else {
        Some(
            encode(
                EventView::SendMsg {
                    user_id: state.user_id,
                    chan_id: state.current_chan,
                    msg,
                },
            ),
        )
    }
}

/// The line that sends `msg` to the current room; `UnknownCurrentChan`
/// where no room is current.
pub fn encode_send_msg(state: &ClientState, msg: String) -> (r: Result<String, ChatErrors>)
    ensures
        match r {
            Ok(line) => send_line(state@, msg@) == Some(line@),
            Err(e) => send_line(state@, msg@) is None && e@ == ChatErrorsView::UnknownCurrentChan,
        },
{
    if state.current_chan.as_str().is_empty() {
        return Err(ChatErrors::UnknownCurrentChan);
    }
    Ok(
        Event::SendMsg {
            user_id: state.user_id.clone(),
            chan_id: state.current_chan.clone(),
            msg,
        }.encode(),
    )
}

/// What parts a directive's name from its argument.
pub open spec fn blank() -> Seq<char> {
    seq![' ']
}

/// The first word of `line` is `name`.
pub open spec fn names(line: Seq<char>, name: Seq<char>) -> bool {
    head(line, blank()) == name
}

/// The second word of `line`: what stands between the first blank and the
/// next.
pub open spec fn argument(line: Seq<char>) -> Seq<char> {
    head(tail(line, blank()), blank())
}

/// What a line is found to be: `Ok(Some(..))` for a directive with what it
/// yields, `Ok(None)` for a line that is not this directive, `Err(..)` for
/// this directive where it cannot be followed, with the reason.
pub type Checked = Result<Option<Seq<char>>, Seq<char>>;

/// A result of a check with its strings as character sequences.
pub open spec fn checked(r: Result<Option<String>, String>) -> Checked {
    match r {
        Ok(Some(s)) => Ok(Some(s@)),
        Ok(None) => Ok(None),
        Err(e) => Err(e@),
    }
}

/// The first and the second word of `line`, where it has a blank.
fn two_words(line: &String) -> (words: (String, Option<String>))
    ensures
        words.0@ == head(line@, blank()),
        words.1 is Some <==> has_sep(line@, blank()),
        words.1 matches Some(arg) ==> arg@ == argument(line@),
{
    proof {
        reveal_strlit(" ");
        assert(" "@ =~= blank());
    }
    let (name, left) = split_first(line.as_str(), " ");
    match left {
        Some(text) => {
            let (arg, _) = split_first(text.as_str(), " ");
            (name, Some(arg))
        },
        None => (name, None),
    }
}

/// What `is_join` and `is_leave` find in `line` for directive `name`:
/// whether the line is that directive, with its argument; `lacks` where
/// the directive has no argument.
pub open spec fn directive(line: Seq<char>, name: Seq<char>, lacks: Seq<char>) -> Result<
    (bool, Seq<char>),
    Seq<char>,
> {
    if !names(line, name) {
        Ok((false, Seq::empty()))
    } else if !has_sep(line, blank()) {
        Err(lacks)
    } else {
        Ok((true, argument(line)))
    }
}

/// A result of `is_join` or `is_leave` with its strings as character
/// sequences.
pub open spec fn found(r: Result<(bool, String), String>) -> Result<(bool, Seq<char>), Seq<char>> {
    match r {
        Ok((yes, arg)) => Ok((yes, arg@)),
        Err(e) => Err(e@),
    }
}

/// Looks for directive `name` in `line`.
fn find_directive(line: &String, name: &str, lacks: &str) -> (r: Result<(bool, String), String>)
    ensures
        found(r) == directive(line@, name@, lacks@),
{
    let (word, arg) = two_words(line);
    if !same_text(word.as_str(), name) {
        return Ok((false, String::new()));
    }
    match arg {
        Some(arg) => Ok((true, arg)),
        None => Err(String::from_str(lacks)),
    }
}

/// Whether `line` is a `$join`, and the room it names.
pub fn is_join(line: String) -> (r: Result<(bool, String), String>)
    ensures
        found(r) == directive(line@, "$join"@, "join need chan_id"@),
{
    find_directive(&line, "$join", "join need chan_id")
}

/// Whether `line` is a `$leave`, and the room it names.
pub fn is_leave(line: String) -> (r: Result<(bool, String), String>)
    ensures
        found(r) == directive(line@, "$leave"@, "leave need chan_id"@),
{
    find_directive(&line, "$leave", "leave need chan_id")
}

/// What `check_switch_chan` finds in `line`: the room of a `$switch`.
pub open spec fn switch_of(line: Seq<char>) -> Checked {
    if !names(line, "$switch"@) {
        Ok(None)
    } else if !has_sep(line, blank()) {
        Err("switch need chan_id"@)
    } else if argument(line).len() == 0 {
        Err("chan_id is empty"@)
    } else {
        Ok(Some(argument(line)))
    }
}

/// The room that a `$switch` names.
pub fn check_switch_chan(line: String) -> (r: Result<Option<String>, String>)
    ensures
        checked(r) == switch_of(line@),
{
    match find_directive(&line, "$switch", "switch need chan_id") {
        Ok((true, chan_id)) => {
            if chan_id.as_str().is_empty() {
                return Err(String::from_str("chan_id is empty"));
            }
            Ok(Some(chan_id))
        },
        Ok((false, _)) => Ok(None),
        Err(e) => Err(e),
    }
}

/// What `check_leave_cmd_and_encode_msg` finds in `line`: the command that
/// a `$leave` of a joined room is sent as.
pub open spec fn leave_of(line: Seq<char>, state: ClientView) -> Checked {
    if !names(line, "$leave"@) {
        Ok(None)
    } else if !has_sep(line, blank()) {
        Err("leave need chan_id"@)
    } else if argument(line).len() == 0 {
        Err("chan_id is empty"@)
    } else if !state.joined_chans.contains(argument(line)) {
        Err("you have not joined chan: "@ + argument(line))
    } else {
        Ok(Some(encode(EventView::LeaveChan { user_id: state.user_id, chan_id: argument(line) })))
    }
}

/// The command for a `$leave`.
pub fn check_leave_cmd_and_encode_msg(line: String, state: &ClientState) -> (r: Result<
    Option<String>,
    String,
>)
    ensures
        checked(r) == leave_of(line@, state@),
{
    match is_leave(line) {
        Ok((yes, chan_id)) => {
            if yes {
                if chan_id.as_str().is_empty() {
                    return Err(String::from_str("chan_id is empty"));
                }
                if !state.joined_chans.contains(&chan_id) {
                    let mut why = String::from_str("you have not joined chan: ");
                    why.append(chan_id.as_str());
                    return Err(why);
                }
                return Ok(Some(encode_leave(state, chan_id)));
            }
            Ok(None)
        },
        Err(e) => Err(e),
    }
}

/// What `check_join_cmd_and_encode_msg` finds in `line`: the command that
/// a `$join` of a room not yet joined is sent as.
pub open spec fn join_of(line: Seq<char>, state: ClientView) -> Checked {
    if !names(line, "$join"@) {
        Ok(None)
    } else if !has_sep(line, blank()) {
        Err("join need chan_id"@)
    } else if argument(line).len() == 0 {
        Err("chan_id is empty"@)
    } else if state.joined_chans.contains(argument(line)) {
        Err("you have already joined chan: "@ + argument(line))
    } else {
        Ok(Some(encode(EventView::JoinChan { user_id: state.user_id, chan_id: argument(line) })))
    }
}

/// The command for a `$join`.
pub fn check_join_cmd_and_encode_msg(line: String, state: &ClientState) -> (r: Result<
    Option<String>,
    String,
>)
    ensures
        checked(r) == join_of(line@, state@),
{
    match is_join(line) {
        Ok((yes, chan_id)) => {
            if yes {
                if chan_id.as_str().is_empty() {
                    return Err(String::from_str("chan_id is empty"));
                }
                if state.joined_chans.contains(&chan_id) {
                    let mut why = String::from_str("you have already joined chan: ");
                    why.append(chan_id.as_str());
                    return Err(why);
                }
                return Ok(Some(encode_join(state, chan_id)));
            }
            Ok(None)
        },
        Err(e) => Err(e),
    }
}

/// What `check_create_chan_cmd_and_encode_msg` finds in `line`: the
/// command that a line beginning with `$create_chan` is sent as.
pub open spec fn create_of(line: Seq<char>, state: ClientView) -> Checked {
    if !starts_with(line, "$create_chan"@) {
        Ok(None)
    } else if !has_sep(line, blank()) {
        Err("create_chan need chan_name"@)
    } else {
        Ok(
            Some(
                encode(EventView::CreateChan { user_id: state.user_id, chan_name: argument(line) }),
            ),
        )
    }
}

/// The command for a `$create_chan`.
pub fn check_create_chan_cmd_and_encode_msg(line: String, state: &ClientState) -> (r: Result<
    Option<String>,
    String,
>)
    ensures
        checked(r) == create_of(line@, state@),
{
    if begins_with(line.as_str(), "$create_chan") {
        let (_, arg) = two_words(&line);
        match arg {
            Some(chan_name) => Ok(Some(encode_create_chan(state, chan_name))),
            None => Err(String::from_str("create_chan need chan_name")),
        }
    } else {
        Ok(None)
    }
}

/// What parts the name of an answer from the id it carries.
pub open spec fn colon() -> Seq<char> {
    seq![':', ' ']
}

/// The id that answer `name` carries in `line`: `invalid` where the line
/// is no answer at all, `other` where it is another answer.
pub open spec fn payload_of(
    line: Seq<char>,
    name: Seq<char>,
    invalid: Seq<char>,
    other: Seq<char>,
) -> Result<Seq<char>, Seq<char>> {
    if !has_sep(line, colon()) {
        Err(invalid)
    } else if head(line, colon()) != name {
        Err(other)
    } else {
        Ok(head(tail(line, colon()), colon()))
    }
}

/// A parsed answer with its strings as character sequences.
pub open spec fn parsed(r: Result<String, String>) -> Result<Seq<char>, Seq<char>> {
    match r {
        Ok(id) => Ok(id@),
        Err(e) => Err(e@),
    }
}

/// Reads answer `name` from `line`.
fn parse_resp(line: &String, name: &str, invalid: &str, other: &str) -> (r: Result<String, String>)
    ensures
        parsed(r) == payload_of(line@, name@, invalid@, other@),
{
    proof {
        reveal_strlit(": ");
        assert(": "@ =~= colon());
    }
    let (word, left) = split_first(line.as_str(), ": ");
    match left {
        None => Err(String::from_str(invalid)),
        Some(text) => {
            if same_text(word.as_str(), name) {
                let (id, _) = split_first(text.as_str(), ": ");
                Ok(id)
            } else {
                Err(String::from_str(other))
            }
        },
    }
}

/// The room of a `$$joined` answer.
pub fn parse_join_resp(line: &String) -> (r: Result<String, String>)
    ensures
        parsed(r) == payload_of(line@, "$$joined"@, "invalid join resp"@, "not join resp"@),
{
    parse_resp(line, "$$joined", "invalid join resp", "not join resp")
}

/// The room of a `$$leaved` answer.
pub fn parse_leave_resp(line: &String) -> (r: Result<String, String>)
    ensures
        parsed(r) == payload_of(line@, "$$leaved"@, "invalid leave resp"@, "not leave resp"@),
{
    parse_resp(line, "$$leaved", "invalid leave resp", "not leave resp")
}

/// The room of a `$$create_chan` answer.
pub fn parse_create_chan_resp(line: &String) -> (r: Result<String, String>)
    ensures
        parsed(r) == payload_of(
            line@,
            "$$create_chan"@,
            "invalid create_chan resp"@,
            "not create_chan resp"@,
        ),
{
    parse_resp(line, "$$create_chan", "invalid create_chan resp", "not create_chan resp")
}

/// What `str::trim` returns for a string of these characters: the string
/// without the white space at its two ends.
pub uninterp spec fn trimmed(s: Seq<char>) -> Seq<char>;

/// Calls `str::trim`, which returns the part of `s` between the white
/// space at its start and at its end.
#[verifier::external_body]
fn trim(s: &str) -> (t: &str)
    ensures
        t@ == trimmed(s@),
{
    s.trim()
}

/// What is to be done about a line that the user typed.
#[derive(Debug, PartialEq, Eq)]
pub enum ClientAction {
    /// The line is blank: nothing.
    Ignore,
    /// The current room was changed to this one.
    Switched(String),
    /// This room cannot be made current: it was not joined.
    NotJoined(String),
    /// This line is to be sent to the service.
    Send(String),
    /// The message cannot be sent: no room is current.
    NoCurrentChan,
}

/// A `ClientAction` with its strings as character sequences.
pub enum ClientActionView {
    Ignore,
    Switched(Seq<char>),
    NotJoined(Seq<char>),
    Send(Seq<char>),
    NoCurrentChan,
}

impl View for ClientAction {
    type V = ClientActionView;

    open spec fn view(&self) -> ClientActionView {
        match self {
            ClientAction::Ignore => ClientActionView::Ignore,
            ClientAction::Switched(chan) => ClientActionView::Switched(chan@),
            ClientAction::NotJoined(chan) => ClientActionView::NotJoined(chan@),
            ClientAction::Send(line) => ClientActionView::Send(line@),
            ClientAction::NoCurrentChan => ClientActionView::NoCurrentChan,
        }
    }
}

/// The room that `line` asks to make current, where it is a `$switch`
/// that names one.
pub open spec fn switch_target(line: Seq<char>) -> Option<Seq<char>> {
    match switch_of(line) {
        Ok(Some(chan)) => Some(chan),
        _ => None,
    }
}

/// What is to be done about `line`, typed by the user and not blank.
///
/// A `$switch` that names a room changes the current room where that room
/// was joined. A `$leave` of a joined room, a `$join` of a room not yet
/// joined and a `$create_chan` with a name are sent as their commands.
/// Every other line, a directive that cannot be followed among them, is
/// sent as a message to the current room.
pub open spec fn action_of(state: ClientView, line: Seq<char>) -> ClientActionView {
    if let Some(chan) = switch_target(line) {
        if state.joined_chans.contains(chan) {
            ClientActionView::Switched(chan)
        } else {
            ClientActionView::NotJoined(chan)
        }
    } else if let Ok(Some(cmd)) = leave_of(line, state) {
        ClientActionView::Send(cmd)
    } else if let Ok(Some(cmd)) = join_of(line, state) {
        ClientActionView::Send(cmd)
    } else if let Ok(Some(cmd)) = create_of(line, state) {
        ClientActionView::Send(cmd)
    } else {
        match send_line(state, line) {
            Some(cmd) => ClientActionView::Send(cmd),
            None => ClientActionView::NoCurrentChan,
        }
    }
}

/// The state after the user typed `line`, which is not blank: changed
/// only by a `$switch` to a joined room.
pub open spec fn after_input(state: ClientView, line: Seq<char>) -> ClientView {
    match switch_target(line) {
        Some(chan) => if state.joined_chans.contains(chan) {
            state.switch_chan(chan)
        } else {
            state
        },
        None => state,
    }
}

/// The room of answer `name` in `line`, where the line is that answer.
pub open spec fn answer_of(line: Seq<char>, name: Seq<char>) -> Option<Seq<char>> {
    match payload_of(line, name, Seq::empty(), Seq::empty()) {
        Ok(id) => Some(id),
        Err(_) => None,
    }
}

/// The state after `line` came from the service: a `$$joined` makes its
/// room current, a `$$leaved` takes its room from the joined rooms, a
/// `$$create_chan` adds its room to them, and any other line changes
/// nothing.
pub open spec fn after_server_line(state: ClientView, line: Seq<char>) -> ClientView {
    if let Some(chan) = answer_of(line, "$$joined"@) {
        state.switch_chan(chan)
    } else if let Some(chan) = answer_of(line, "$$leaved"@) {
        state.leave_chan(chan)
    } else if let Some(chan) = answer_of(line, "$$create_chan"@) {
        state.append_chan(chan)
    } else {
        state
    }
}

impl ClientState {
    /// Takes a line that the user typed, and says what is to be done about
    /// it. A line of white space only is passed over; any other line is
    /// handed to `on_text`.
    pub fn on_input(&mut self, line: String) -> (action: ClientAction)
        ensures
            trimmed(line@).len() == 0 ==> action@ == ClientActionView::Ignore && final(self)@
                == old(self)@,
            trimmed(line@).len() != 0 ==> action@ == action_of(old(self)@, line@) && final(self)@
                == after_input(old(self)@, line@),
    {
        if trim(line.as_str()).is_empty() {
            return ClientAction::Ignore;
        }
        self.on_text(line)
    }

    /// Takes a line that the user typed and that is not blank, and says
    /// what is to be done about it.
    pub fn on_text(&mut self, line: String) -> (action: ClientAction)
        ensures
            action@ == action_of(old(self)@, line@),
            final(self)@ == after_input(old(self)@, line@),
    {
        if let Ok(Some(chan_id)) = check_switch_chan(line.clone()) {
            if !self.joined_chans.contains(&chan_id) {
                return ClientAction::NotJoined(chan_id);
            }
            self.switch_chan(chan_id.clone());
            return ClientAction::Switched(chan_id);
        }
        if let Ok(Some(msg)) = check_leave_cmd_and_encode_msg(line.clone(), self) {
            return ClientAction::Send(msg);
        }
        if let Ok(Some(msg)) = check_join_cmd_and_encode_msg(line.clone(), self) {
            return ClientAction::Send(msg);
        }
        if let Ok(Some(msg)) = check_create_chan_cmd_and_encode_msg(line.clone(), self) {
            return ClientAction::Send(msg);
        }
        match encode_send_msg(self, line) {
            Ok(msg) => ClientAction::Send(msg),
            Err(_) => ClientAction::NoCurrentChan,
        }
    }

    /// Takes a line that came from the service.
    pub fn on_server_line(&mut self, line: &String)
        ensures
            final(self)@ == after_server_line(old(self)@, line@),
    {
        if let Ok(chan) = parse_join_resp(line) {
            self.switch_chan(chan);
        } else if let Ok(chan) = parse_leave_resp(line) {
            self.leave_chan(chan);
        } else if let Ok(chan) = parse_create_chan_resp(line) {
            self.append_chan(chan);
        }
    }

    /// Takes the service's answer to the registration of `name`. Where
    /// `line` is a `$$create_chan`, its room is the user's id, the personal
    /// room and the current room; any other line changes nothing and gives
    /// `false`.
    pub fn on_registered(&mut self, name: String, line: &String) -> (done: bool)
        ensures
            match answer_of(line@, "$$create_chan"@) {
                Some(id) => done && final(self)@ == old(self)@.registered(name@, id),
                None => !done && final(self)@ == old(self)@,
            },
    {
        match parse_create_chan_resp(line) {
            Ok(id) => {
                self.user_id = id.clone();
                self.username = name;
                self.user_chan = id.clone();
                self.current_chan = id.clone();
                let _ = self.joined_chans.insert(id);
                true
            },
            Err(_) => false,
        }
    }
}

/// The client reads from an answer of the service the id that the service
/// put into it, where the answer's name and the id hold no colon.
pub proof fn lemma_answer_read_back(name: Seq<char>, id: Seq<char>)
    requires
        !name.contains(':'),
        !id.contains(':'),
    ensures
        answer_of(response(name, id), name) == Some(id),
{
    crate::text::lemma_joined_splits(name, colon(), id);
    crate::text::lemma_plain_is_one_field(id, colon());
    reveal_strlit(": ");
    assert(": "@ =~= colon());
}

} // verus!
