//! A verified core for a stateful, bidirectional gateway protocol client:
//! an opcode-tagged envelope codec with a proved encode/decode round trip,
//! the connection-lifecycle and heartbeat-liveness state machines, an
//! opcode-filtered router, and a FIFO outbound write queue.

pub mod bus;
pub mod codec;
pub mod error;
pub mod events;
pub mod gateway;
pub mod heartbeat;
pub mod payload;
pub mod router;
