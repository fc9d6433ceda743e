//! What the service does with a decoded command.

use crate::chatsvc::{
    gen_id, is_id, ChatService, DirectoryView, CREATE_CHAN_RESP, JOIN_RESP, LEAVE_RESP,
};
use crate::errors::{ChatErrors, ChatErrorsView};
use crate::event::{respond, response, Event, EventView};
use vstd::prelude::*;

verus! {

/// What came of one command: the line to write back to the connection that
/// sent it, where there is one, and the error to record, where there is
/// one.
#[derive(Debug)]
pub struct Step {
    pub reply: Option<String>,
    pub error: Option<ChatErrors>,
}

/// A `Step` with its strings as character sequences.
pub struct StepView {
    pub reply: Option<Seq<char>>,
    pub error: Option<ChatErrorsView>,
}

impl View for Step {
    type V = StepView;

    open spec fn view(&self) -> StepView {
        StepView {
            reply: match self.reply {
                Some(line) => Some(line@),
                None => None,
            },
            error: match self.error {
                Some(e) => Some(e@),
                None => None,
            },
        }
    }
}

impl StepView {
    /// Nothing to write and nothing to record.
    pub open spec fn silent() -> StepView {
        StepView { reply: None, error: None }
    }

    /// `line` is to be written back.
    pub open spec fn answer(line: Seq<char>) -> StepView {
        StepView { reply: Some(line), error: None }
    }

    /// `e` is to be recorded, and nothing written.
    pub open spec fn failed(e: ChatErrorsView) -> StepView {
        StepView { reply: None, error: Some(e) }
    }
}

/// The name under which a message of `user` is published: the user's name,
/// or the id itself where there is no such user.
pub open spec fn sender_name(d: DirectoryView, user: Seq<char>) -> Seq<char> {
    if d.users.contains_key(user) {
        d.users[user]
    } else {
        user
    }
}

/// The directory after command `ev` of connection `uid`, where `fresh` is
/// the id at hand for a new room.
pub open spec fn directory_after(
    d: DirectoryView,
    uid: Seq<char>,
    ev: EventView,
    fresh: Seq<char>,
) -> DirectoryView {
    match ev {
        EventView::Register { username } => if d.unused(uid) {
            d.add_user(username, uid)
        } else {
            d
        },
        EventView::CreateChan { user_id, chan_name } => if d.can_create(user_id, fresh) {
            d.create_room(user_id, chan_name, fresh)
        } else {
            d
        },
        EventView::JoinChan { user_id, chan_id } => d.join(user_id, chan_id),
        EventView::LeaveChan { user_id, chan_id } => d.leave(user_id, chan_id),
        EventView::SendMsg { .. } => d,
    }
}

/// What comes of command `ev` of connection `uid` in directory `d`, where
/// `fresh` is the id at hand for a new room.
///
/// A registration, and the making of a room, are answered with
/// `$$create_chan` and the id of the new room; a join with `$$joined` and a
/// leave with `$$leaved`, each with the id of the room. A message has no
/// answer. A command that names a room that does not exist fails with
/// `RoomNotFound`. A registration under an id in use, and the making of a
/// room by an unknown user or under an id in use, do nothing.
pub open spec fn step_of(
    d: DirectoryView,
    uid: Seq<char>,
    ev: EventView,
    fresh: Seq<char>,
) -> StepView {
    match ev {
        EventView::Register { username } => if d.unused(uid) {
            StepView::answer(response("$$create_chan"@, uid))
        } else {
            StepView::silent()
        },
        EventView::CreateChan { user_id, chan_name } => if d.can_create(user_id, fresh) {
            StepView::answer(response("$$create_chan"@, fresh))
        } else {
            StepView::silent()
        },
        EventView::JoinChan { user_id, chan_id } => if d.rooms.contains_key(chan_id) {
            StepView::answer(response("$$joined"@, chan_id))
        } else {
            StepView::failed(ChatErrorsView::RoomNotFound(chan_id))
        },
        EventView::LeaveChan { user_id, chan_id } => if d.rooms.contains_key(chan_id) {
            StepView::answer(response("$$leaved"@, chan_id))
        } else {
            StepView::failed(ChatErrorsView::RoomNotFound(chan_id))
        },
        EventView::SendMsg { user_id, chan_id, msg } => if d.rooms.contains_key(chan_id) {
            StepView::silent()
        } else {
            StepView::failed(ChatErrorsView::RoomNotFound(chan_id))
        },
    }
}

/// Carries out `event` for connection `uid`, with `fresh` as the id of the
/// room that a `CreateChan` makes. A message is published on the bus under
/// the name of its sender (see `sender_name`).
pub fn apply_event(uid: String, svc: &mut ChatService, event: Event, fresh: String) -> (step: Step)
    ensures
        final(svc)@ == directory_after(old(svc)@, uid@, event@, fresh@),
        step@ == step_of(old(svc)@, uid@, event@, fresh@),
        final(svc).coherent(),
{
    match event {
        Event::Register { username } => {
            if svc.add_user(username, uid.clone()) {
                Step { reply: Some(respond(CREATE_CHAN_RESP, uid.as_str())), error: None }
            } else {
                Step { reply: None, error: None }
            }
        },
        Event::CreateChan { user_id, chan_name } => {
            match svc.create_chan(user_id, chan_name, Some(fresh)) {
                Some(id) => Step {
                    reply: Some(respond(CREATE_CHAN_RESP, id.as_str())),
                    error: None,
                },
                None => Step { reply: None, error: None },
            }
        },
        Event::JoinChan { user_id, chan_id } => {
            match svc.join_chan(user_id, chan_id.clone()) {
                Ok(()) => Step { reply: Some(respond(JOIN_RESP, chan_id.as_str())), error: None },
                Err(e) => Step { reply: None, error: Some(e) },
            }
        },
        Event::LeaveChan { user_id, chan_id } => {
            match svc.leave_chan(user_id, chan_id.clone()) {
                Ok(()) => Step { reply: Some(respond(LEAVE_RESP, chan_id.as_str())), error: None },
                Err(e) => Step { reply: None, error: Some(e) },
            }
        },
        Event::SendMsg { user_id, chan_id, msg } => {
            let name = match svc.user_name(&user_id) {
                Some(name) => name,
                None => user_id,
            };
            match svc.send_msg(false, name, chan_id, msg) {
                Ok(()) => Step { reply: None, error: None },
                Err(e) => Step { reply: None, error: Some(e) },
            }
        },
    }
}

/// Carries out `event` for connection `uid`. The id of a room that it
/// makes is drawn at random.
pub fn handle_event(uid: String, svc: &mut ChatService, event: Event) -> (step: Step)
    ensures
        exists|fresh: Seq<char>|
            {
                &&& is_id(fresh)
                &&& final(svc)@ == #[trigger] directory_after(old(svc)@, uid@, event@, fresh)
                &&& step@ == step_of(old(svc)@, uid@, event@, fresh)
            },
        final(svc).coherent(),
{
    let fresh = gen_id();
    apply_event(uid, svc, event, fresh)
}

} // verus!
