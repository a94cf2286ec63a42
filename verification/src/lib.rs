//! Client-side session engine of a text chat application.
//!
//! The crate turns free-form input lines into structured commands, decides how
//! each command is dispatched against the client's registration state, keeps
//! the client's identity and group membership, frames and checks the JSON
//! bodies that travel to and from the chat service, and models the background
//! response poller. Network and terminal I/O live outside the crate; every
//! decision the protocol makes is verified here.

pub mod errors;
pub mod events;
pub mod executor;
pub mod handlers;
pub mod help;
pub mod helper;
pub mod history;
pub mod json;
pub mod parse;
pub mod poller;
pub mod registry;
pub mod respond;
pub mod session;
pub mod tabs;
pub mod transport;
pub mod text;
pub mod types;
pub mod users;
