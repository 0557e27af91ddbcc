//! The commands that work on the distributed hash table.
pub mod bootstrap;
pub mod get_closest_peers;
pub mod get_providers;
pub mod get_record;
pub mod put_record;
pub mod remove_record;
pub mod start_provide;
pub mod stop_provide;

pub use bootstrap::{BootstrapCommand, BootstrapResult};
pub use get_closest_peers::{GetClosestPeersCommand, GetClosestPeersResult};
pub use get_providers::{GetProvidersCommand, GetProvidersResult};
pub use get_record::{GetRecordCommand, GetRecordResult};
pub use put_record::PutRecordCommand;
pub use remove_record::RemoveRecordCommand;
pub use start_provide::StartProvideCommand;
pub use stop_provide::StopProvideCommand;
