//! The directory of users, rooms and memberships, and the bus on which the
//! messages of all rooms travel.
//!
//! A user is known by an id. Registering a user also makes the user's
//! personal room, whose id is the user's id. A room made on command needs an
//! owner who is registered, and an id that no room and no user has. Any id
//! may join a room that exists.
//!
//! The directory records each membership twice: in the room's set of members
//! and in the user's set of rooms. The two always agree.

use crate::errors::{ChatErrors, ChatErrorsView};
use crate::strmap::StrMap;
use crate::strset::StrSet;
use tokio::sync::broadcast::Sender;
use vstd::prelude::*;
use vstd::string::StringExecFns;

verus! {

/// The name of the answer to a join.
pub const JOIN_RESP: &'static str = "$$joined";

/// The name of the answer to a leave.
pub const LEAVE_RESP: &'static str = "$$leaved";

/// The name of the answer to the making of a room.
pub const CREATE_CHAN_RESP: &'static str = "$$create_chan";

/// `tokio::sync::broadcast::Sender`, the sending half of the bus. The
/// contracts see nothing of what it holds.
#[verifier::external_type_specification]
#[verifier::external_body]
#[verifier::reject_recursive_types(T)]
pub struct ExSender<T>(Sender<T>);

/// A registered user.
#[derive(Debug)]
pub struct UserInfo {
    pub id: String,
    pub name: String,
}

/// A message on the bus: the room it is for, who sent it, the line to be
/// written to the room's members, and when it was made, in milliseconds
/// since the Unix epoch.
#[derive(Debug)]
pub struct Message {
    pub chan_id: String,
    pub sender: String,
    pub content: String,
    pub send_time: i64,
}

/// A room and the ids of its members.
#[derive(Debug)]
pub struct Channel {
    pub id: String,
    pub name: String,
    pub online_users: StrSet,
}

/// A room as the contracts see it.
pub struct RoomView {
    pub name: Seq<char>,
    pub members: Set<Seq<char>>,
}

/// The directory as the contracts see it: the name of each user and the
/// rooms, each under its id.
pub struct DirectoryView {
    pub users: Map<Seq<char>, Seq<char>>,
    pub rooms: Map<Seq<char>, RoomView>,
}

impl DirectoryView {
    /// The directory without users and rooms.
    pub open spec fn empty() -> DirectoryView {
        DirectoryView { users: Map::empty(), rooms: Map::empty() }
    }

    /// Room `room` exists and has `user` among its members.
    pub open spec fn is_member(self, user: Seq<char>, room: Seq<char>) -> bool {
        self.rooms.contains_key(room) && self.rooms[room].members.contains(user)
    }

    /// Every user has a personal room.
    pub open spec fn complete(self) -> bool {
        forall|u: Seq<char>| self.users.contains_key(u) ==> self.rooms.contains_key(u)
    }

    /// `id` is the id of no user and of no room.
    pub open spec fn unused(self, id: Seq<char>) -> bool {
        !self.users.contains_key(id) && !self.rooms.contains_key(id)
    }

    /// The directory after user `id` was registered under `name`: it holds
    /// the user and the user's personal room, with the user as its only
    /// member.
    pub open spec fn add_user(self, name: Seq<char>, id: Seq<char>) -> DirectoryView {
        DirectoryView {
            users: self.users.insert(id, name),
            rooms: self.rooms.insert(id, RoomView { name, members: set![id] }),
        }
    }

    /// `owner` may make a room with id `id`.
    pub open spec fn can_create(self, owner: Seq<char>, id: Seq<char>) -> bool {
        self.users.contains_key(owner) && self.unused(id)
    }

    /// The directory after `owner` made room `id` under `name`.
    pub open spec fn create_room(
        self,
        owner: Seq<char>,
        name: Seq<char>,
        id: Seq<char>,
    ) -> DirectoryView {
        DirectoryView {
            users: self.users,
            rooms: self.rooms.insert(id, RoomView { name, members: set![owner] }),
        }
    }

    /// The directory after `user` joined `room`; unchanged where there is no
    /// such room.
    pub open spec fn join(self, user: Seq<char>, room: Seq<char>) -> DirectoryView {
        if self.rooms.contains_key(room) {
            DirectoryView {
                users: self.users,
                rooms: self.rooms.insert(
                    room,
                    RoomView {
                        name: self.rooms[room].name,
                        members: self.rooms[room].members.insert(user),
                    },
                ),
            }
        } else {
            self
        }
    }

    /// The directory after `user` left `room`; unchanged where there is no
    /// such room.
    pub open spec fn leave(self, user: Seq<char>, room: Seq<char>) -> DirectoryView {
        if self.rooms.contains_key(room) {
            DirectoryView {
                users: self.users,
                rooms: self.rooms.insert(
                    room,
                    RoomView {
                        name: self.rooms[room].name,
                        members: self.rooms[room].members.remove(user),
                    },
                ),
            }
        } else {
            self
        }
    }
}

impl Clone for UserInfo {
    fn clone(&self) -> (copy: Self)
        ensures
            copy.id@ == self.id@,
            copy.name@ == self.name@,
    {
        UserInfo { id: self.id.clone(), name: self.name.clone() }
    }
}

impl Clone for Message {
    fn clone(&self) -> (copy: Self)
        ensures
            copy.chan_id@ == self.chan_id@,
            copy.sender@ == self.sender@,
            copy.content@ == self.content@,
            copy.send_time == self.send_time,
    {
        Message {
            chan_id: self.chan_id.clone(),
            sender: self.sender.clone(),
            content: self.content.clone(),
            send_time: self.send_time,
        }
    }
}

/// A character that an id is made of: a digit or one of `a` to `f`.
pub open spec fn is_id_char(c: char) -> bool {
    ('0' <= c && c <= '9') || ('a' <= c && c <= 'f')
}

/// `s` has the shape of a generated id: ten id characters.
pub open spec fn is_id(s: Seq<char>) -> bool {
    s.len() == 10 && forall|i: int| 0 <= i < s.len() ==> is_id_char(#[trigger] s[i])
}

/// Calls `nanoid::format` with `nanoid::rngs::default` as its source of
/// random bytes. The result has `size` characters, each of them one of
/// `alphabet`; which ones is left open.
///
/// `nanoid::format` refuses an alphabet of more than 255 characters, and
/// counts what it has made in bytes, so the alphabet is to be ASCII; with an
/// empty alphabet or a size of 0 it would not come back.
#[verifier::external_body]
fn random_id(alphabet: &Vec<char>, size: usize) -> (id: String)
    requires
        0 < alphabet@.len() <= 255,
        forall|i: int| 0 <= i < alphabet@.len() ==> (#[trigger] alphabet@[i]) <= '\x7f',
        0 < size <= 0xffff,
    ensures
        id@.len() == size,
        forall|i: int| 0 <= i < id@.len() ==> alphabet@.contains(#[trigger] id@[i]),
{
    nanoid::format(nanoid::rngs::default, alphabet, size)
}

/// Calls `chrono::Utc::now` and `DateTime::timestamp_millis` on what it
/// returns: the time of the call in milliseconds since the Unix epoch.
/// Nothing is claimed of the number. `Utc::now` gives up on a machine whose
/// clock stands before the epoch.
#[verifier::external_body]
fn now_millis() -> i64 {
    chrono::Utc::now().timestamp_millis()
}

/// Calls `tokio::sync::broadcast::Sender::send`. `Some(n)` says that the bus
/// had `n` receivers, at least one, and took the message; `None` that it had
/// none and the message was dropped.
#[verifier::external_body]
fn bus_send(tx: &Sender<Message>, msg: Message) -> (receivers: Option<usize>)
    ensures
        receivers matches Some(n) ==> n >= 1,
{
    tx.send(msg).ok()
}

/// A fresh id: ten characters, drawn at random from the digits and the
/// letters `a` to `f`.
pub fn gen_id() -> (id: String)
    ensures
        is_id(id@),
{
    let alphabet: Vec<char> = vec![
        '1',
        '2',
        '3',
        '4',
        '5',
        '6',
        '7',
        '8',
        '9',
        '0',
        'a',
        'b',
        'c',
        'd',
        'e',
        'f',
    ];
    assert(forall|i: int| 0 <= i < alphabet@.len() ==> is_id_char(#[trigger] alphabet@[i]));
    let id = random_id(&alphabet, 10);
    assert forall|i: int| 0 <= i < id@.len() implies is_id_char(#[trigger] id@[i]) by {
        let c = id@[i];
        assert(alphabet@.contains(c));
        let j = choose|j: int| 0 <= j < alphabet@.len() && alphabet@[j] == c;
        assert(is_id_char(alphabet@[j]));
    }
    id
}

impl View for Channel {
    type V = RoomView;

    open spec fn view(&self) -> RoomView {
        RoomView { name: self.name@, members: self.online_users@ }
    }
}

impl Channel {
    /// An empty room named `name`, with a fresh id.
    pub fn new(name: String) -> (chan: Channel)
        ensures
            is_id(chan.id@),
            chan.name@ == name@,
            chan.online_users@ == Set::<Seq<char>>::empty(),
    {
        Channel::with_id(gen_id(), name)
    }

    /// An empty room named `name`, with the id `id`.
    pub fn with_id(id: String, name: String) -> (chan: Channel)
        ensures
            chan.id@ == id@,
            chan.name@ == name@,
            chan.online_users@ == Set::<Seq<char>>::empty(),
    {
        Channel { id, name, online_users: StrSet::new() }
    }

    /// Makes `user_id` a member.
    pub fn join(&mut self, user_id: String)
        ensures
            final(self).id == old(self).id,
            final(self).name == old(self).name,
            final(self).online_users@ == old(self).online_users@.insert(user_id@),
    {
        let _ = self.online_users.insert(user_id);
    }

    /// Makes `user_id` no member.
    pub fn leave(&mut self, user_id: String)
        ensures
            final(self).id == old(self).id,
            final(self).name == old(self).name,
            final(self).online_users@ == old(self).online_users@.remove(user_id@),
    {
        let _ = self.online_users.remove(&user_id);
    }
}

/// The line that a message carries: `msg` as it is for an answer to a
/// command, else `msg` behind the sender's name.
pub open spec fn content_of(is_cmd: bool, username: Seq<char>, msg: Seq<char>) -> Seq<char> {
    if is_cmd {
        msg
    } else {
        username + ": "@ + msg
    }
}

impl Message {
    /// A message of `username` for room `chan_id`, with line `c`, made now.
    pub fn new(username: String, chan_id: String, c: String) -> (m: Message)
        ensures
            m.chan_id@ == chan_id@,
            m.sender@ == username@,
            m.content@ == c@,
    {
        Message { chan_id, sender: username, content: c, send_time: now_millis() }
    }

    /// A message of `username` for room `chan_id` that carries `msg`: as it
    /// is where `is_cmd` holds, else behind the sender's name.
    pub fn compose(is_cmd: bool, username: String, chan_id: String, msg: String) -> (m: Message)
        ensures
            m.chan_id@ == chan_id@,
            m.sender@ == username@,
            m.content@ == content_of(is_cmd, username@, msg@),
    {
        let content = if is_cmd {
            msg
        } else {
            let mut line = username.clone();
            line.append(": ");
            line.append(msg.as_str());
            line
        };
        Message::new(username, chan_id, content)
    }

    /// The line to write to the members of the room.
    pub fn to_string(&self) -> (line: String)
        ensures
            line@ == self.content@,
    {
        self.content.clone()
    }
}

impl UserInfo {
    /// The id and the name.
    pub fn to_string(&self) -> (text: String)
        ensures
            text@ == self.id@ + ": "@ + self.name@,
    {
        let mut text = self.id.clone();
        text.append(": ");
        text.append(self.name.as_str());
        text
    }
}

/// The records of the directory.
struct Directory {
    users: StrMap<UserInfo>,
    channels: StrMap<Channel>,
    user_chans: StrMap<StrSet>,
}

/// Room `room` of `channels` has `user` among its members.
spec fn room_has(channels: Map<Seq<char>, Channel>, room: Seq<char>, user: Seq<char>) -> bool {
    channels.contains_key(room) && channels[room].online_users@.contains(user)
}

/// The rooms that `index` holds for `user` include `room`.
spec fn user_has(index: Map<Seq<char>, StrSet>, user: Seq<char>, room: Seq<char>) -> bool {
    index.contains_key(user) && index[user]@.contains(room)
}

/// Each record stands under its own id, each user has a personal room, and
/// the two records of membership agree.
spec fn consistent(
    users: Map<Seq<char>, UserInfo>,
    channels: Map<Seq<char>, Channel>,
    index: Map<Seq<char>, StrSet>,
) -> bool {
    &&& forall|k: Seq<char>| #[trigger]
        users.contains_key(k) ==> users[k].id@ == k && channels.contains_key(k)
    &&& forall|k: Seq<char>| #[trigger] channels.contains_key(k) ==> channels[k].id@ == k
    &&& forall|u: Seq<char>, r: Seq<char>|
        #![trigger user_has(index, u, r)]
        #![trigger room_has(channels, r, u)]
        user_has(index, u, r) <==> room_has(channels, r, u)
}

/// The directory that the records stand for.
spec fn directory_of(
    users: Map<Seq<char>, UserInfo>,
    channels: Map<Seq<char>, Channel>,
) -> DirectoryView {
    DirectoryView {
        users: Map::new(|k: Seq<char>| users.contains_key(k), |k: Seq<char>| users[k].name@),
        rooms: Map::new(|k: Seq<char>| channels.contains_key(k), |k: Seq<char>| channels[k]@),
    }
}

impl Directory {
    /// The records are consistent.
    spec fn wf(self) -> bool {
        consistent(self.users@, self.channels@, self.user_chans@)
    }

    /// The directory that the records stand for.
    spec fn view(self) -> DirectoryView {
        directory_of(self.users@, self.channels@)
    }

    /// The rooms that are recorded for `user`.
    spec fn rooms_of(self, user: Seq<char>) -> Set<Seq<char>> {
        if self.user_chans@.contains_key(user) {
            self.user_chans@[user]@
        } else {
            Set::empty()
        }
    }

    /// Empty records, with room for `cap` users and rooms.
    fn with_capacity(cap: usize) -> (dir: Directory)
        ensures
            dir.wf(),
            dir.view() == DirectoryView::empty(),
    {
        let dir = Directory {
            users: StrMap::with_capacity(cap),
            channels: StrMap::with_capacity(cap),
            user_chans: StrMap::with_capacity(cap),
        };
        assert(dir.view().users =~= Map::empty());
        assert(dir.view().rooms =~= Map::empty());
        dir
    }

    /// Whether the rooms recorded for `uid` hold `chan_id`.
    fn is_user_sub(&self, uid: &String, chan_id: &String) -> (sub: bool)
        requires
            self.wf(),
        ensures
            sub == self.rooms_of(uid@).contains(chan_id@),
            sub == self.view().is_member(uid@, chan_id@),
    {
        assert(user_has(self.user_chans@, uid@, chan_id@) <==> room_has(
            self.channels@,
            chan_id@,
            uid@,
        ));
        match self.user_chans.get(uid) {
            Some(chans) => chans.contains(chan_id),
            None => false,
        }
    }

    /// Records that `uid` has `chan_id` among its rooms.
    fn note_joined(&mut self, uid: String, chan_id: String)
        ensures
            final(self).users == old(self).users,
            final(self).channels == old(self).channels,
            forall|u: Seq<char>, r: Seq<char>|
                #![trigger user_has(final(self).user_chans@, u, r)]
                user_has(final(self).user_chans@, u, r) <==> (user_has(old(self).user_chans@, u, r)
                    || (u == uid@ && r == chan_id@)),
    {
        let mut chans = match self.user_chans.remove(&uid) {
            Some(chans) => chans,
            None => StrSet::new(),
        };
        let _ = chans.insert(chan_id);
        self.user_chans.insert(uid, chans);
    }

    /// Records that `uid` has `chan_id` no longer among its rooms.
    fn note_left(&mut self, uid: String, chan_id: &String)
        ensures
            final(self).users == old(self).users,
            final(self).channels == old(self).channels,
            forall|u: Seq<char>, r: Seq<char>|
                #![trigger user_has(final(self).user_chans@, u, r)]
                user_has(final(self).user_chans@, u, r) <==> (user_has(old(self).user_chans@, u, r)
                    && !(u == uid@ && r == chan_id@)),
    {
        match self.user_chans.remove(&uid) {
            Some(chans) => {
                let mut chans = chans;
                let _ = chans.remove(chan_id);
                self.user_chans.insert(uid, chans);
            },
            None => {},
        }
    }

    /// Records `uid` as a member of room `chan_id`, on both sides.
    fn join(&mut self, uid: String, chan_id: String) -> (r: Result<(), ChatErrors>)
        requires
            old(self).wf(),
        ensures
            final(self).wf(),
            final(self).view() == old(self).view().join(uid@, chan_id@),
            r is Ok <==> old(self).view().rooms.contains_key(chan_id@),
            r matches Err(e) ==> e@ == ChatErrorsView::RoomNotFound(chan_id@),
    {
        match self.channels.remove(&chan_id) {
            Some(chan) => {
                let mut chan = chan;
                chan.join(uid.clone());
                self.channels.insert(chan_id.clone(), chan);
                self.note_joined(uid, chan_id);
                proof {
                    let wanted = old(self).view().join(uid@, chan_id@);
                    let after = self.view();
                    assert(after.users =~= wanted.users);
                    assert(after.rooms =~~= wanted.rooms);
                    assert forall|u: Seq<char>, r: Seq<char>|
                        user_has(self.user_chans@, u, r) <==> room_has(self.channels@, r, u) by {
                        assert(user_has(old(self).user_chans@, u, r) <==> room_has(
                            old(self).channels@,
                            r,
                            u,
                        ));
                    }
                }
                Ok(())
            },
            None => {
                Err(ChatErrors::RoomNotFound(chan_id))
            },
        }
    }

    /// Records `uid` as no member of room `chan_id`, on both sides.
    fn leave(&mut self, uid: String, chan_id: String) -> (r: Result<(), ChatErrors>)
        requires
            old(self).wf(),
        ensures
            final(self).wf(),
            final(self).view() == old(self).view().leave(uid@, chan_id@),
            r is Ok <==> old(self).view().rooms.contains_key(chan_id@),
            r matches Err(e) ==> e@ == ChatErrorsView::RoomNotFound(chan_id@),
    {
        match self.channels.remove(&chan_id) {
            Some(chan) => {
                let mut chan = chan;
                chan.leave(uid.clone());
                self.channels.insert(chan_id.clone(), chan);
                self.note_left(uid, &chan_id);
                proof {
                    let wanted = old(self).view().leave(uid@, chan_id@);
                    let after = self.view();
                    assert(after.users =~= wanted.users);
                    assert(after.rooms =~~= wanted.rooms);
                    assert forall|u: Seq<char>, r: Seq<char>|
                        user_has(self.user_chans@, u, r) <==> room_has(self.channels@, r, u) by {
                        assert(user_has(old(self).user_chans@, u, r) <==> room_has(
                            old(self).channels@,
                            r,
                            u,
                        ));
                    }
                }
                Ok(())
            },
            None => Err(ChatErrors::RoomNotFound(chan_id)),
        }
    }

    /// Makes room `id` under `name`, with `owner` as its only member.
    fn open_room(&mut self, owner: String, name: String, id: String)
        requires
            old(self).wf(),
            !old(self).channels@.contains_key(id@),
        ensures
            final(self).wf(),
            final(self).users == old(self).users,
            final(self).channels@.dom() == old(self).channels@.dom().insert(id@),
            final(self).view() == old(self).view().create_room(owner@, name@, id@),
    {
        let mut chan = Channel::with_id(id.clone(), name);
        chan.join(owner.clone());
        self.channels.insert(id.clone(), chan);
        self.note_joined(owner, id);
        proof {
            let wanted = old(self).view().create_room(owner@, name@, id@);
            let after = self.view();
            assert(after.users =~= wanted.users);
            assert(after.rooms =~~= wanted.rooms);
            assert(self.channels@.dom() =~= old(self).channels@.dom().insert(id@));
            assert forall|u: Seq<char>, r: Seq<char>|
                user_has(self.user_chans@, u, r) <==> room_has(self.channels@, r, u) by {
                assert(user_has(old(self).user_chans@, u, r) <==> room_has(
                    old(self).channels@,
                    r,
                    u,
                ));
            }
        }
    }

    /// Records user `uid` and the user's personal room, where the id is
    /// unused.
    fn add_user(&mut self, name: String, uid: String) -> (added: bool)
        requires
            old(self).wf(),
        ensures
            final(self).wf(),
            added == old(self).view().unused(uid@),
            added ==> final(self).view() == old(self).view().add_user(name@, uid@),
            !added ==> final(self).view() == old(self).view(),
    {
        if self.users.contains_key(&uid) || self.channels.contains_key(&uid) {
            return false;
        }
        self.open_room(uid.clone(), name.clone(), uid.clone());
        self.users.insert(uid.clone(), UserInfo { id: uid, name });
        proof {
            let wanted = old(self).view().add_user(name@, uid@);
            let after = self.view();
            assert(after.users =~= wanted.users);
            assert(after.rooms =~~= wanted.rooms);
        }
        true
    }

    /// Records room `id` of owner `uid`, where the owner is a user and the
    /// id is unused.
    fn create(&mut self, uid: String, name: String, id: String) -> (made: bool)
        requires
            old(self).wf(),
        ensures
            final(self).wf(),
            made == old(self).view().can_create(uid@, id@),
            made ==> final(self).view() == old(self).view().create_room(uid@, name@, id@),
            !made ==> final(self).view() == old(self).view(),
    {
        if !self.users.contains_key(&uid) || self.users.contains_key(&id)
            || self.channels.contains_key(&id) {
            return false;
        }
        self.open_room(uid, name, id);
        true
    }

    /// The name recorded for user `uid`.
    fn user_name(&self, uid: &String) -> (name: Option<String>)
        ensures
            name is Some <==> self.view().users.contains_key(uid@),
            name matches Some(n) ==> n@ == self.view().users[uid@],
    {
        match self.users.get(uid) {
            Some(user) => Some(user.name.clone()),
            None => None,
        }
    }

    /// Whether a room `chan_id` is recorded.
    fn has_room(&self, chan_id: &String) -> (found: bool)
        ensures
            found == self.view().rooms.contains_key(chan_id@),
    {
        self.channels.contains_key(chan_id)
    }
}

/// The chat service: the directory, and the sending half of the bus that
/// every connection listens to.
pub struct ChatService {
    tx: Sender<Message>,
    dir: Directory,
}

impl View for ChatService {
    type V = DirectoryView;

    closed spec fn view(&self) -> DirectoryView {
        self.dir.view()
    }
}

impl ChatService {
    /// The records are consistent in every state of the service.
    #[verifier::type_invariant]
    spec fn inv(self) -> bool {
        self.dir.wf()
    }

    /// The rooms that the service has recorded for `user`: the second
    /// record of membership, beside the members of each room.
    pub closed spec fn rooms_of(&self, user: Seq<char>) -> Set<Seq<char>> {
        self.dir.rooms_of(user)
    }

    /// What holds of the service in every state: each user has a personal
    /// room, and a room is recorded for a user exactly where the user is a
    /// member of the room.
    pub open spec fn coherent(&self) -> bool {
        &&& self@.complete()
        &&& forall|u: Seq<char>, r: Seq<char>| #[trigger]
            self.rooms_of(u).contains(r) <==> self@.is_member(u, r)
    }

    /// Consistent records make a coherent service.
    proof fn lemma_coherent(self)
        requires
            self.dir.wf(),
        ensures
            self.coherent(),
    {
        assert forall|u: Seq<char>, r: Seq<char>| #[trigger]
            self.rooms_of(u).contains(r) <==> self@.is_member(u, r) by {
            assert(user_has(self.dir.user_chans@, u, r) <==> room_has(self.dir.channels@, r, u));
        }
    }

    /// A service without users and rooms that publishes on `tx`, with room
    /// for `cap` users and rooms.
    pub fn new(cap: usize, tx: Sender<Message>) -> (svc: ChatService)
        ensures
            svc@ == DirectoryView::empty(),
            svc.coherent(),
    {
        let svc = ChatService { tx, dir: Directory::with_capacity(cap) };
        proof {
            svc.lemma_coherent();
        }
        svc
    }

    /// Registers user `uid` under `name`, with a personal room of the same
    /// id and name, of which the user is the only member. Where `uid` is
    /// the id of a user or of a room, nothing changes and `false` is
    /// returned.
    pub fn add_user(&mut self, name: String, uid: String) -> (added: bool)
        ensures
            added == old(self)@.unused(uid@),
            added ==> final(self)@ == old(self)@.add_user(name@, uid@),
            !added ==> final(self)@ == old(self)@,
            final(self).coherent(),
    {
        proof {
            use_type_invariant(&*self);
        }
        let mut dir = Directory::with_capacity(0);
        std::mem::swap(&mut dir, &mut self.dir);
        let added = dir.add_user(name, uid);
        self.dir = dir;
        proof {
            self.lemma_coherent();
        }
        added
    }

    /// Registers a user under `name` with a fresh id, and returns the id of
    /// the user and that of the personal room, which are the same. Where
    /// the id that was drawn is in use, nothing changes and `None` is
    /// returned.
    pub fn register(&mut self, name: String) -> (ids: Option<(String, String)>)
        ensures
            match ids {
                Some((uid, room)) => {
                    &&& room@ == uid@
                    &&& is_id(uid@)
                    &&& old(self)@.unused(uid@)
                    &&& final(self)@ == old(self)@.add_user(name@, uid@)
                    &&& final(self)@.is_member(uid@, room@)
                },
                None => final(self)@ == old(self)@,
            },
            final(self).coherent(),
    {
        let uid = gen_id();
        if self.add_user(name, uid.clone()) {
            Some((uid.clone(), uid))
        } else {
            None
        }
    }

    /// Whether `uid` is a member of room `chan_id`, as the rooms recorded
    /// for the user say.
    pub fn is_user_sub(&self, uid: &String, chan_id: &String) -> (sub: bool)
        ensures
            sub == self.rooms_of(uid@).contains(chan_id@),
            sub == self@.is_member(uid@, chan_id@),
            self.coherent(),
    {
        proof {
            use_type_invariant(self);
            self.lemma_coherent();
        }
        self.dir.is_user_sub(uid, chan_id)
    }

    /// Makes a room named `name` with `uid` as its only member, and returns
    /// its id: `pre_chan_id` where one is given, else a fresh one. Where
    /// `uid` is no user, or the id is that of a user or of a room, nothing
    /// changes and `None` is returned.
    pub fn create_chan(&mut self, uid: String, name: String, pre_chan_id: Option<String>) -> (made:
        Option<String>)
        ensures
            match made {
                Some(id) => {
                    &&& old(self)@.can_create(uid@, id@)
                    &&& final(self)@ == old(self)@.create_room(uid@, name@, id@)
                    &&& pre_chan_id matches Some(pre) ==> id@ == pre@
                    &&& pre_chan_id is None ==> is_id(id@)
                },
                None => {
                    &&& final(self)@ == old(self)@
                    &&& pre_chan_id matches Some(pre) ==> !old(self)@.can_create(uid@, pre@)
                },
            },
            !old(self)@.users.contains_key(uid@) ==> made is None,
            final(self).coherent(),
    {
        proof {
            use_type_invariant(&*self);
        }
        let id = match pre_chan_id {
            Some(pre) => pre,
            None => gen_id(),
        };
        let mut dir = Directory::with_capacity(0);
        std::mem::swap(&mut dir, &mut self.dir);
        let made = dir.create(uid, name, id.clone());
        self.dir = dir;
        proof {
            self.lemma_coherent();
        }
        if made {
            Some(id)
        } else {
            None
        }
    }

    /// Makes `uid` a member of room `chan_id`. Where there is no such room,
    /// nothing changes and `RoomNotFound` is returned.
    pub fn join_chan(&mut self, uid: String, chan_id: String) -> (r: Result<(), ChatErrors>)
        ensures
            r is Ok <==> old(self)@.rooms.contains_key(chan_id@),
            r matches Err(e) ==> e@ == ChatErrorsView::RoomNotFound(chan_id@),
            final(self)@ == old(self)@.join(uid@, chan_id@),
            final(self).coherent(),
    {
        proof {
            use_type_invariant(&*self);
        }
        let mut dir = Directory::with_capacity(0);
        std::mem::swap(&mut dir, &mut self.dir);
        let r = dir.join(uid, chan_id);
        self.dir = dir;
        proof {
            self.lemma_coherent();
        }
        r
    }

    /// Makes `uid` no member of room `chan_id`. Where there is no such
    /// room, nothing changes and `RoomNotFound` is returned.
    pub fn leave_chan(&mut self, uid: String, chan_id: String) -> (r: Result<(), ChatErrors>)
        ensures
            r is Ok <==> old(self)@.rooms.contains_key(chan_id@),
            r matches Err(e) ==> e@ == ChatErrorsView::RoomNotFound(chan_id@),
            final(self)@ == old(self)@.leave(uid@, chan_id@),
            final(self).coherent(),
    {
        proof {
            use_type_invariant(&*self);
        }
        let mut dir = Directory::with_capacity(0);
        std::mem::swap(&mut dir, &mut self.dir);
        let r = dir.leave(uid, chan_id);
        self.dir = dir;
        proof {
            self.lemma_coherent();
        }
        r
    }

    /// Publishes a message of `username` for room `chan_id` on the bus: the
    /// message that `Message::compose` makes of the arguments. Where there
    /// is no such room, nothing is published and `RoomNotFound` is
    /// returned. A room without members, and a bus without listeners, are
    /// no failure.
    pub fn send_msg(&self, is_cmd: bool, username: String, chan_id: String, msg: String) -> (r:
        Result<(), ChatErrors>)
        ensures
            r is Ok <==> self@.rooms.contains_key(chan_id@),
            r matches Err(e) ==> e@ == ChatErrorsView::RoomNotFound(chan_id@),
            self.coherent(),
    {
        proof {
            use_type_invariant(self);
            self.lemma_coherent();
        }
        if !self.dir.has_room(&chan_id) {
            return Err(ChatErrors::RoomNotFound(chan_id));
        }
        let _ = bus_send(&self.tx, Message::compose(is_cmd, username, chan_id, msg));
        Ok(())
    }

    /// The name of user `uid`, where there is such a user.
    pub fn user_name(&self, uid: &String) -> (name: Option<String>)
        ensures
            name is Some <==> self@.users.contains_key(uid@),
            name matches Some(n) ==> n@ == self@.users[uid@],
    {
        self.dir.user_name(uid)
    }

    /// Whether there is a room `chan_id`.
    pub fn has_chan(&self, chan_id: &String) -> (found: bool)
        ensures
            found == self@.rooms.contains_key(chan_id@),
    {
        self.dir.has_room(chan_id)
    }
}

/// Joining a room and then leaving it restores the directory, where the
/// user was no member of the room before.
pub proof fn lemma_join_then_leave(d: DirectoryView, user: Seq<char>, room: Seq<char>)
    requires
        !d.is_member(user, room),
    ensures
        d.join(user, room).leave(user, room) == d,
{
    let back = d.join(user, room).leave(user, room);
    if d.rooms.contains_key(room) {
        assert(d.rooms[room].members.insert(user).remove(user) =~= d.rooms[room].members);
    }
    assert(back.rooms =~~= d.rooms);
}

/// Leaving a room of which the user is no member changes nothing.
pub proof fn lemma_leave_non_member(d: DirectoryView, user: Seq<char>, room: Seq<char>)
    requires
        !d.is_member(user, room),
    ensures
        d.leave(user, room) == d,
{
    if d.rooms.contains_key(room) {
        assert(d.rooms[room].members.remove(user) =~= d.rooms[room].members);
    }
    assert(d.leave(user, room).rooms =~~= d.rooms);
}

/// Joining a second time, and leaving a second time, change nothing.
pub proof fn lemma_join_leave_idempotent(d: DirectoryView, user: Seq<char>, room: Seq<char>)
    ensures
        d.join(user, room).join(user, room) == d.join(user, room),
        d.leave(user, room).leave(user, room) == d.leave(user, room),
{
    if d.rooms.contains_key(room) {
        let members = d.rooms[room].members;
        assert(members.insert(user).insert(user) =~= members.insert(user));
        assert(members.remove(user).remove(user) =~= members.remove(user));
    }
    assert(d.join(user, room).join(user, room).rooms =~~= d.join(user, room).rooms);
    assert(d.leave(user, room).leave(user, room).rooms =~~= d.leave(user, room).rooms);
}

/// Who is a member of which room after a join and after a leave: the one
/// membership is gained or lost, where the room exists, and no other
/// changes.
pub proof fn lemma_membership_after(
    d: DirectoryView,
    user: Seq<char>,
    room: Seq<char>,
    u: Seq<char>,
    r: Seq<char>,
)
    ensures
        d.join(user, room).is_member(u, r) <==> d.is_member(u, r) || (u == user && r == room
            && d.rooms.contains_key(room)),
        d.leave(user, room).is_member(u, r) <==> d.is_member(u, r) && !(u == user && r == room),
{
}

/// A user who was registered is the only member of the personal room,
/// whose id is the user's.
pub proof fn lemma_registered_is_member(d: DirectoryView, name: Seq<char>, id: Seq<char>)
    ensures
        d.add_user(name, id).users.contains_key(id),
        d.add_user(name, id).is_member(id, id),
        forall|u: Seq<char>| d.add_user(name, id).is_member(u, id) ==> u == id,
{
}

/// Each user keeps a personal room through every change of the directory.
pub proof fn lemma_complete_is_kept(
    d: DirectoryView,
    user: Seq<char>,
    room: Seq<char>,
    name: Seq<char>,
)
    requires
        d.complete(),
    ensures
        d.add_user(name, user).complete(),
        d.create_room(user, name, room).complete(),
        d.join(user, room).complete(),
        d.leave(user, room).complete(),
{
}

} // verus!
