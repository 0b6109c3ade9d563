//! Application-layer engine of a Modbus slave (server) device.
//!
//! The library holds the verified core: a fixed-size register store for the
//! four Modbus data areas with bounds-checked range reads and writes, a
//! request dispatcher that maps decoded requests onto store operations and
//! change notifications, and the server runtime state machine that tracks
//! the bound address, the connection count and the last recorded error.
//! Wire framing, TCP accept loops and event delivery are left to the host
//! application, which drives this engine with plain values.

pub mod handler;
pub mod runtime;
pub mod store;
