//! The commands that exchange requests and responses with a peer.
pub mod send_request;
pub mod send_response;

pub use send_request::SendRequestCommand;
pub use send_response::SendResponseCommand;
