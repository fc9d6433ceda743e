//! A text chat service: clients register, make and join rooms, and send
//! messages that go to every member of a room.
//!
//! - [`event`] is the command protocol: one command per line, decoded and
//!   encoded, and what the service does with a decoded command.
//! - [`chatsvc`] is the directory of users, rooms and memberships, with the
//!   bus on which the messages of all rooms are published.
//! - [`session`] is one connection as a state machine: it takes the lines
//!   that come in and the events of the bus, and says what is to be written.
//! - [`client`] is the client's side: the directives that the user types and
//!   the answers of the service.
//! - [`text`], [`strset`] and [`strmap`] are what the others are built on:
//!   splitting at separators, and sets and maps of strings.
//!
//! The contracts are stated over sequences of characters, sets and maps, and
//! proved with Verus. What is taken on trust is marked `external_body`: the
//! calls into `tokio`, `nanoid` and `chrono`, and `str::trim`.

pub mod chatsvc;
pub mod client;
pub mod errors;
pub mod event;
pub mod session;
pub mod strmap;
pub mod strset;
pub mod text;
