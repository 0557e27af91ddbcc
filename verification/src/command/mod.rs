//! The commands that an application gives the node.
//!
//! A command lives in two phases. Its first turn, `run`, either finishes it
//! at once or names one call on the network stack; the stack's answer goes to
//! `on_reply`. A command that is not finished by then is shown every event of
//! the stack, through `on_event`, until it finishes.
pub mod add_peer_addrs;
pub mod dial;
pub mod disconnect;
pub mod get_listen_addrs;
pub mod handler;
pub mod is_connected;
pub mod kad;
pub mod req_resp;
pub mod task;
pub mod totals;

pub use add_peer_addrs::AddPeerAddrsCommand;
pub use dial::DialCommand;
pub use disconnect::DisconnectCommand;
pub use get_listen_addrs::GetListenAddrsCommand;
pub use handler::{Observed, Poll, ResultHandle, Start};
pub use is_connected::IsConnectedCommand;
pub use kad::{
    BootstrapCommand, BootstrapResult, GetClosestPeersCommand, GetClosestPeersResult,
    GetProvidersCommand, GetProvidersResult, GetRecordCommand, GetRecordResult, PutRecordCommand,
    RemoveRecordCommand, StartProvideCommand, StopProvideCommand,
};
pub use req_resp::{SendRequestCommand, SendResponseCommand};
