//! Encoding of metrics, events and service checks into statsd lines, and the
//! packing of queued lines into size-bounded datagrams.

pub mod client;
pub mod clock;
pub mod packing;
pub mod pipeline;
pub mod text;
pub mod wire;
