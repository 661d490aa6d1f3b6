//! A peer-to-peer broadcast bus. Given the connected streams that a swarm
//! yields, it keeps the registry of live peers, frames messages on each
//! connection, fans a message out to every peer, and merges what the peers
//! send into one stream of messages tagged with their sender.
//!
//! Nothing in here waits or touches a stream: the accept loop and the
//! connections are driven from outside, event by event.

pub mod aggregator;
pub mod channel;
pub mod connection;
pub mod environment;
pub mod framing;
pub mod hyperbroadcast;
pub mod incoming_message;
pub mod peer;
pub mod registry;
pub mod transcript;

pub use crate::aggregator::{Aggregator, ForwardError};
pub use crate::channel::Refusal;
pub use crate::connection::{Endpoint, Framer, FramerAction, FramerEvent, Termination};
pub use crate::environment::{Command, JoinOpts, LogLevel, Opts};
pub use crate::hyperbroadcast::{Connection, HyperBroadcast, RunError, RunStep, SwarmEvent};
pub use crate::incoming_message::IncomingMessage;
pub use crate::peer::{Peer, PeerId, SendError};
pub use crate::registry::PeerRegistry;
pub use crate::transcript::Transcript;
