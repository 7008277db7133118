//! Wire protocol for a "cherry door" access controller: an outbound command
//! frame builder/encoder and an inbound heartbeat decoder.

pub mod command;
pub mod heartbeat;

pub use command::Command;
pub use command::CommandBuildError;
pub use heartbeat::Heartbeat;
pub use heartbeat::HeartbeatParseError;
pub use heartbeat::Status;
pub use heartbeat::StatusMap;
