//! A small chat service: the rules by which the server reads one request from a
//! connection and frames one reply, the conversation state of its client, and the
//! report of a command run on its behalf.

pub mod client;
pub mod connection;
pub mod message;
pub mod request;
pub mod response;
pub mod server;
pub mod shell;
pub mod text;
