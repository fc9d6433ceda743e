//! The command protocol: one command per line, its fields separated by `$`.
//!
//! | command | line |
//! |---|---|
//! | register | `reg$<name>` |
//! | create a room | `create_chan$<user id>$<room name>` |
//! | join a room | `join$<user id>$<room id>` |
//! | leave a room | `leave$<user id>$<room id>` |
//! | send a message | `send_msg$<user id>$<room id>$<body>` |
//!
//! The body of a message is the last field and runs to the end of the line,
//! so it may itself hold `$`.

use crate::errors::{ChatErrors, ChatErrorsView};
use crate::text::{
    has_sep, head, lemma_head_holds_no_sep, lemma_joined_splits, lemma_plain_is_one_field,
    same_text, split_first, tail,
};
use vstd::prelude::*;
use vstd::string::StringExecFns;

pub mod handler;

verus! {

/// A command of the protocol.
#[derive(Debug, PartialEq, Eq)]
pub enum Event {
    Register { username: String },
    CreateChan { user_id: String, chan_name: String },
    JoinChan { user_id: String, chan_id: String },
    LeaveChan { user_id: String, chan_id: String },
    SendMsg { user_id: String, chan_id: String, msg: String },
}

/// A command with its fields as character sequences.
pub enum EventView {
    Register { username: Seq<char> },
    CreateChan { user_id: Seq<char>, chan_name: Seq<char> },
    JoinChan { user_id: Seq<char>, chan_id: Seq<char> },
    LeaveChan { user_id: Seq<char>, chan_id: Seq<char> },
    SendMsg { user_id: Seq<char>, chan_id: Seq<char>, msg: Seq<char> },
}

impl View for Event {
    type V = EventView;

    open spec fn view(&self) -> EventView {
        match self {
            Event::Register { username } => EventView::Register { username: username@ },
            Event::CreateChan { user_id, chan_name } => EventView::CreateChan {
                user_id: user_id@,
                chan_name: chan_name@,
            },
            Event::JoinChan { user_id, chan_id } => EventView::JoinChan {
                user_id: user_id@,
                chan_id: chan_id@,
            },
            Event::LeaveChan { user_id, chan_id } => EventView::LeaveChan {
                user_id: user_id@,
                chan_id: chan_id@,
            },
            Event::SendMsg { user_id, chan_id, msg } => EventView::SendMsg {
                user_id: user_id@,
                chan_id: chan_id@,
                msg: msg@,
            },
        }
    }
}

impl Clone for Event {
    fn clone(&self) -> (copy: Self)
        ensures
            copy@ == self@,
    {
        match self {
            Event::Register { username } => Event::Register { username: username.clone() },
            Event::CreateChan { user_id, chan_name } => Event::CreateChan {
                user_id: user_id.clone(),
                chan_name: chan_name.clone(),
            },
            Event::JoinChan { user_id, chan_id } => Event::JoinChan {
                user_id: user_id.clone(),
                chan_id: chan_id.clone(),
            },
            Event::LeaveChan { user_id, chan_id } => Event::LeaveChan {
                user_id: user_id.clone(),
                chan_id: chan_id.clone(),
            },
            Event::SendMsg { user_id, chan_id, msg } => Event::SendMsg {
                user_id: user_id.clone(),
                chan_id: chan_id.clone(),
                msg: msg.clone(),
            },
        }
    }
}

/// The separator of a command's fields.
pub open spec fn sep() -> Seq<char> {
    seq!['$']
}

/// What follows the `n`-th separator of `line`; the line itself for `n == 0`.
pub open spec fn rest(line: Seq<char>, n: nat) -> Seq<char>
    decreases n,
{
    if n == 0 {
        line
    } else {
        tail(rest(line, (n - 1) as nat), sep())
    }
}

/// `line` has at least `n` fields.
pub open spec fn has_fields(line: Seq<char>, n: nat) -> bool
    decreases n,
{
    n <= 1 || (has_fields(line, (n - 1) as nat) && has_sep(rest(line, (n - 2) as nat), sep()))
}

/// The field of `line` with index `i`, counted from 0.
pub open spec fn field(line: Seq<char>, i: nat) -> Seq<char> {
    head(rest(line, i), sep())
}

/// The fewest fields that a line with first field `token` may have, or 0
/// where `token` names no command.
pub open spec fn min_fields(token: Seq<char>) -> nat {
    if token == "reg"@ {
        2
    } else if token == "create_chan"@ || token == "join"@ || token == "leave"@ {
        3
    } else if token == "send_msg"@ {
        4
    } else {
        0
    }
}

/// What a line with first field `token` and too few fields is answered with.
pub open spec fn missing(token: Seq<char>) -> Seq<char> {
    if token == "reg"@ {
        "reg need username"@
    } else if token == "create_chan"@ {
        "create channel need user id and chan name"@
    } else if token == "join"@ {
        "join need user id and chan id"@
    } else if token == "leave"@ {
        "leave need user id and chan id"@
    } else {
        "send_msg need user id and chan id and msg content"@
    }
}

/// The command that `line` stands for, or why it stands for none.
pub open spec fn decode(line: Seq<char>) -> Result<EventView, ChatErrorsView> {
    let token = field(line, 0);
    if min_fields(token) == 0 {
        Err(ChatErrorsView::CommandNotSupport(token))
    } else if !has_fields(line, min_fields(token)) {
        Err(ChatErrorsView::InvalidCommand(missing(token)))
    } else if token == "reg"@ {
        Ok(EventView::Register { username: field(line, 1) })
    } else if token == "create_chan"@ {
        Ok(EventView::CreateChan { user_id: field(line, 1), chan_name: field(line, 2) })
    } else if token == "join"@ {
        Ok(EventView::JoinChan { user_id: field(line, 1), chan_id: field(line, 2) })
    } else if token == "leave"@ {
        Ok(EventView::LeaveChan { user_id: field(line, 1), chan_id: field(line, 2) })
    } else {
        Ok(EventView::SendMsg { user_id: field(line, 1), chan_id: field(line, 2), msg: rest(line, 3) })
    }
}

/// The line that stands for `ev`.
pub open spec fn encode(ev: EventView) -> Seq<char> {
    match ev {
        EventView::Register { username } => "reg"@ + sep() + username,
        EventView::CreateChan { user_id, chan_name } => "create_chan"@ + sep() + user_id + sep()
            + chan_name,
        EventView::JoinChan { user_id, chan_id } => "join"@ + sep() + user_id + sep() + chan_id,
        EventView::LeaveChan { user_id, chan_id } => "leave"@ + sep() + user_id + sep() + chan_id,
        EventView::SendMsg { user_id, chan_id, msg } => "send_msg"@ + sep() + user_id + sep()
            + chan_id + sep() + msg,
    }
}

/// `f` can stand as a field before the last: it holds no separator.
pub open spec fn plain(f: Seq<char>) -> bool {
    !f.contains('$')
}

/// Every field of `ev` but a message's body holds no separator.
pub open spec fn encodable(ev: EventView) -> bool {
    match ev {
        EventView::Register { username } => plain(username),
        EventView::CreateChan { user_id, chan_name } => plain(user_id) && plain(chan_name),
        EventView::JoinChan { user_id, chan_id } => plain(user_id) && plain(chan_id),
        EventView::LeaveChan { user_id, chan_id } => plain(user_id) && plain(chan_id),
        EventView::SendMsg { user_id, chan_id, msg } => plain(user_id) && plain(chan_id),
    }
}

/// What `line` decodes to, in the shape of what `from_string` returns.
pub open spec fn decoded(r: Result<Event, ChatErrors>) -> Result<EventView, ChatErrorsView> {
    match r {
        Ok(ev) => Ok(ev@),
        Err(e) => Err(e@),
    }
}

/// The next field of what is left of a line, and what follows it.
fn next_field(left: Option<String>) -> (out: Option<(String, Option<String>)>)
    ensures
        out is Some <==> left is Some,
        out matches Some(parts) ==> {
            &&& parts.0@ == head(left->0@, sep())
            &&& parts.1 is Some <==> has_sep(left->0@, sep())
            &&& parts.1 matches Some(more) ==> more@ == tail(left->0@, sep())
        },
{
    proof {
        reveal_strlit("$");
        assert("$"@ =~= sep());
    }
    match left {
        Some(text) => Some(split_first(text.as_str(), "$")),
        None => None,
    }
}

/// The two fields that follow a command's name, and what follows them.
fn two_fields(line: &String, left: Option<String>) -> (out: Option<(String, String, Option<String>)>)
    requires
        left is Some <==> has_fields(line@, 2),
        left matches Some(text) ==> text@ == rest(line@, 1),
    ensures
        out is Some <==> has_fields(line@, 3),
        out matches Some(parts) ==> {
            &&& parts.0@ == field(line@, 1)
            &&& parts.1@ == field(line@, 2)
            &&& parts.2 is Some <==> has_fields(line@, 4)
            &&& parts.2 matches Some(more) ==> more@ == rest(line@, 3)
        },
{
    proof {
        reveal_with_fuel(rest, 4);
        reveal_with_fuel(has_fields, 5);
    }
    match next_field(left) {
        Some((first, after)) => match next_field(after) {
            Some((second, more)) => Some((first, second, more)),
            None => None,
        },
        None => None,
    }
}

impl Event {
    /// Decodes one line.
    ///
    /// The first field names the command. A name that is none of the five
    /// gives `CommandNotSupport` with that name; a known name with too few
    /// fields gives `InvalidCommand`. Fields beyond those of the command are
    /// dropped, but for a message, whose body is all that follows the third
    /// separator.
    pub fn from_string(line: String) -> (r: Result<Event, ChatErrors>)
        ensures
            decoded(r) == decode(line@),
    {
        proof {
            reveal_strlit("$");
            assert("$"@ =~= sep());
            reveal_with_fuel(rest, 4);
            reveal_with_fuel(has_fields, 5);
            lemma_names_differ();
        }
        let (token, left) = split_first(line.as_str(), "$");
        if same_text(token.as_str(), "reg") {
            match next_field(left) {
                Some((username, _)) => Ok(Event::Register { username }),
                None => Err(ChatErrors::InvalidCommand(String::from_str("reg need username"))),
            }
        } else if same_text(token.as_str(), "create_chan") {
            match two_fields(&line, left) {
                Some((user_id, chan_name, _)) => Ok(Event::CreateChan { user_id, chan_name }),
                None => Err(
                    ChatErrors::InvalidCommand(
                        String::from_str("create channel need user id and chan name"),
                    ),
                ),
            }
        } else if same_text(token.as_str(), "join") {
            match two_fields(&line, left) {
                Some((user_id, chan_id, _)) => Ok(Event::JoinChan { user_id, chan_id }),
                None => Err(
                    ChatErrors::InvalidCommand(String::from_str("join need user id and chan id")),
                ),
            }
        } else if same_text(token.as_str(), "leave") {
            match two_fields(&line, left) {
                Some((user_id, chan_id, _)) => Ok(Event::LeaveChan { user_id, chan_id }),
                None => Err(
                    ChatErrors::InvalidCommand(String::from_str("leave need user id and chan id")),
                ),
            }
        } else if same_text(token.as_str(), "send_msg") {
            match two_fields(&line, left) {
                Some((user_id, chan_id, Some(msg))) => Ok(Event::SendMsg { user_id, chan_id, msg }),
                _ => Err(
                    ChatErrors::InvalidCommand(
                        String::from_str("send_msg need user id and chan id and msg content"),
                    ),
                ),
            }
        } else {
            Err(ChatErrors::CommandNotSupport(token))
        }
    }

    /// Encodes the command as one line.
    pub fn encode(&self) -> (line: String)
        ensures
            line@ == encode(self@),
    {
        proof {
            reveal_strlit("$");
            assert("$"@ =~= sep());
        }
        match self {
            Event::Register { username } => {
                let mut line = String::from_str("reg");
                line.append("$");
                line.append(username.as_str());
                line
            },
            Event::CreateChan { user_id, chan_name } => {
                let mut line = String::from_str("create_chan");
                line.append("$");
                line.append(user_id.as_str());
                line.append("$");
                line.append(chan_name.as_str());
                line
            },
            Event::JoinChan { user_id, chan_id } => {
                let mut line = String::from_str("join");
                line.append("$");
                line.append(user_id.as_str());
                line.append("$");
                line.append(chan_id.as_str());
                line
            },
            Event::LeaveChan { user_id, chan_id } => {
                let mut line = String::from_str("leave");
                line.append("$");
                line.append(user_id.as_str());
                line.append("$");
                line.append(chan_id.as_str());
                line
            },
            Event::SendMsg { user_id, chan_id, msg } => {
                let mut line = String::from_str("send_msg");
                line.append("$");
                line.append(user_id.as_str());
                line.append("$");
                line.append(chan_id.as_str());
                line.append("$");
                line.append(msg.as_str());
                line
            },
        }
    }
}

/// The five command names differ from one another, and none holds a
/// separator.
pub proof fn lemma_names_differ()
    ensures
        "reg"@.len() == 3,
        "join"@.len() == 4,
        "leave"@.len() == 5,
        "send_msg"@.len() == 8,
        "create_chan"@.len() == 11,
        plain("reg"@),
        plain("join"@),
        plain("leave"@),
        plain("send_msg"@),
        plain("create_chan"@),
{
    reveal_strlit("reg");
    reveal_strlit("join");
    reveal_strlit("leave");
    reveal_strlit("send_msg");
    reveal_strlit("create_chan");
}

/// Decoding the line of a command gives the command back, where each of its
/// fields but a message's body holds no separator.
pub proof fn lemma_decode_encode(ev: EventView)
    requires
        encodable(ev),
    ensures
        decode(encode(ev)) == Ok::<EventView, ChatErrorsView>(ev),
{
    lemma_names_differ();
    reveal_with_fuel(rest, 4);
    reveal_with_fuel(has_fields, 5);
    let s = sep();
    match ev {
        EventView::Register { username } => {
            lemma_joined_splits("reg"@, s, username);
            lemma_plain_is_one_field(username, s);
        },
        EventView::CreateChan { user_id, chan_name } => {
            lemma_three_fields("create_chan"@, user_id, chan_name);
        },
        EventView::JoinChan { user_id, chan_id } => {
            lemma_three_fields("join"@, user_id, chan_id);
        },
        EventView::LeaveChan { user_id, chan_id } => {
            lemma_three_fields("leave"@, user_id, chan_id);
        },
        EventView::SendMsg { user_id, chan_id, msg } => {
            let line = encode(ev);
            let r2 = chan_id + s + msg;
            let r1 = user_id + s + r2;
            assert(line =~= "send_msg"@ + s + r1);
            lemma_joined_splits("send_msg"@, s, r1);
            lemma_joined_splits(user_id, s, r2);
            lemma_joined_splits(chan_id, s, msg);
        },
    }
}

/// The command that a line decodes to is encoded as a line that decodes to
/// the same command.
pub proof fn lemma_decoded_round_trip(line: Seq<char>)
    requires
        decode(line) is Ok,
    ensures
        encodable(decode(line)->Ok_0),
        decode(encode(decode(line)->Ok_0)) == decode(line),
{
    lemma_head_holds_no_sep(rest(line, 1), sep());
    lemma_head_holds_no_sep(rest(line, 2), sep());
    lemma_decode_encode(decode(line)->Ok_0);
}

/// A line of a name and two fields without separators has these three
/// fields and no more.
proof fn lemma_three_fields(name: Seq<char>, a: Seq<char>, b: Seq<char>)
    requires
        plain(name),
        plain(a),
        plain(b),
    ensures
        field(name + sep() + a + sep() + b, 0) == name,
        field(name + sep() + a + sep() + b, 1) == a,
        field(name + sep() + a + sep() + b, 2) == b,
        has_fields(name + sep() + a + sep() + b, 3),
        !has_fields(name + sep() + a + sep() + b, 4),
{
    reveal_with_fuel(rest, 4);
    reveal_with_fuel(has_fields, 5);
    let s = sep();
    let line = name + s + a + s + b;
    let r1 = a + s + b;
    assert(line =~= name + s + r1);
    lemma_joined_splits(name, s, r1);
    lemma_joined_splits(a, s, b);
    lemma_plain_is_one_field(b, s);
}

/// A line decodes to a command exactly where its first field names one and
/// it has the fields that the command needs: the command then holds these
/// fields, each of them whole.
pub proof fn lemma_decode_is_whole(line: Seq<char>)
    ensures
        decode(line) is Ok <==> min_fields(field(line, 0)) > 0 && has_fields(
            line,
            min_fields(field(line, 0)),
        ),
        decode(line) matches Ok(ev) ==> match ev {
            EventView::Register { username } => username == field(line, 1),
            EventView::CreateChan { user_id, chan_name } => user_id == field(line, 1) && chan_name
                == field(line, 2),
            EventView::JoinChan { user_id, chan_id } => user_id == field(line, 1) && chan_id
                == field(line, 2),
            EventView::LeaveChan { user_id, chan_id } => user_id == field(line, 1) && chan_id
                == field(line, 2),
            EventView::SendMsg { user_id, chan_id, msg } => user_id == field(line, 1) && chan_id
                == field(line, 2) && msg == rest(line, 3),
        },
{
}

/// A line whose first field names a command, with fewer fields than the
/// command needs, decodes to `InvalidCommand`.
pub proof fn lemma_too_few_fields(line: Seq<char>)
    requires
        min_fields(field(line, 0)) > 0,
        !has_fields(line, min_fields(field(line, 0))),
    ensures
        decode(line) == Err::<EventView, ChatErrorsView>(
            ChatErrorsView::InvalidCommand(missing(field(line, 0))),
        ),
{
}

/// A line whose first field names no command decodes to
/// `CommandNotSupport` with that field.
pub proof fn lemma_unknown_name(line: Seq<char>)
    requires
        min_fields(field(line, 0)) == 0,
    ensures
        decode(line) == Err::<EventView, ChatErrorsView>(
            ChatErrorsView::CommandNotSupport(field(line, 0)),
        ),
{
}

/// An answer of the service: a name that begins with `$$`, then `": "` and
/// the id of a room.
pub open spec fn response(name: Seq<char>, payload: Seq<char>) -> Seq<char> {
    name + ": "@ + payload
}

/// The answer `name` with `payload`.
pub fn respond(name: &str, payload: &str) -> (line: String)
    ensures
        line@ == response(name@, payload@),
{
    let mut line = String::from_str(name);
    line.append(": ");
    line.append(payload);
    line
}

} // verus!
