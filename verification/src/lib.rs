//! Core logic of a Wisp proxy server: a single message transport carries many
//! independent logical streams, multiplexed into framed packets, with
//! per-stream flow control, a connection policy, and bidirectional forwarding
//! between each stream and a TCP or UDP target.
//!
//! Everything here is pure state-machine and codec logic: the surrounding
//! process supplies the transport, the sockets and the DNS lookups, and feeds
//! their events into the functions of this crate.

pub mod config;
pub mod forward;
pub mod ip;
pub mod mux;
pub mod packet;
pub mod policy;
pub mod resolver;
pub mod select;
pub mod session;
pub mod transport;

pub use config::PortRange;
pub use config::WispConfig;
pub use policy::ResolvedStream;
pub use session::WispState;
