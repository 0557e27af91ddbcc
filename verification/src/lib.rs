//! Command and event runtime of a peer-to-peer node, written without I/O.
//!
//! The node's network stack lives outside this crate. What is here are the
//! rules that sit between an application and that stack: the commands with
//! their two-phase life cycle, the walk of a network event along the running
//! commands, the projection of network events onto the events an application
//! sees, the store of response channels that expire, and the slot through
//! which a command's result reaches the task that awaits it.
//!
//! Every function takes plain values and returns plain values: what to ask of
//! the network stack is handed out as a [`swarm::SwarmCall`], what the stack
//! answered comes back as a [`swarm::SwarmReply`] or a [`swarm::SwarmEvent`].
pub mod addr;
pub mod client;
pub mod command;
pub mod config;
pub mod error;
pub mod event;
pub mod peer;
pub mod pending_map;
pub mod runtime;
pub mod swarm;
pub mod time;
pub mod util;

pub use command::task::{Command, CommandOutput, CommandTask, Completion};
pub use config::NodeConfig;
pub use error::{Error, ErrorKind, StoreError};
pub use event::{NatStatus, NodeEvent};
pub use libp2p;
pub use pending_map::PendingMap;
pub use runtime::EventLoop;
pub use swarm::{Quorum, SwarmCall, SwarmEvent, SwarmReply, SwarmView};
pub use time::TimeSpan;
pub use util::QueryStatsInfo;
