//! Core of a chat bot that keeps one zodiac sign per user and serves content for that sign.
//!
//! The bot reads chat messages. A message that begins with the prefix and names a command
//! is served; every other message is passed over in silence. Users set their sign with
//! `set`, ask for it with `sign`, ask for content with `car`, `track` and `monthly`, and
//! have it forgotten with `deleteme`.
//!
//! * [`text`]: whitespace, trimming, ASCII case folding, decimal notation.
//! * [`sign`]: the twelve signs and the validation of free text against their names.
//! * [`store`]: the table of records, the requests that move it, and a store in memory.
//! * [`registry`]: the holder of the shared handle to the backend of the store.
//! * [`content`]: the reference content and its lookup.
//! * [`command`]: the router that splits a message into command and argument.
//! * [`reply`]: the texts of the replies.
//! * [`dispatch`]: from a message to a reply, with the store in between.
//!
//! Nothing here does I/O. A process that talks to a chat service and a database asks
//! [`dispatch::Bot::plan`] what a message calls for, runs the request it is given against
//! its database, and has [`dispatch::Bot::conclude`] word the reply.

pub mod command;
pub mod content;
pub mod dispatch;
pub mod registry;
pub mod reply;
pub mod sign;
pub mod store;
pub mod text;
