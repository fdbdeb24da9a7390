//! Control core for a local network of smart lighting devices that speak a
//! stateless, datagram-based protocol.
//!
//! The crate owns the device-state synchronization and command-dispatch
//! engine: the wire codec for device reports and operator commands, the
//! registry that holds the last-known state of every device, the command
//! channel that carries outbound requests into the socket multiplexer, the
//! multiplexer's per-cycle decision logic, and the periodic discovery step.
//! All socket, timer and HTTP plumbing lives outside this crate; it hands
//! datagrams and drained commands across as plain values.

pub mod channel;
pub mod codec;
pub mod control;
pub mod discovery;
pub mod envelope;
pub mod light;
pub mod message;
pub mod mux;
pub mod onboard;
pub mod registry;
