//! The network transport layer of a version-control client: packet-line framing,
//! request writing and response reading, capability parsing, connection planning
//! and the classification of errors as worth retrying or not.

pub mod packetline;
pub mod capabilities;
pub mod non_io_types;
pub mod client;
pub mod connect;
pub mod reflog;
