//! Plain-data forms of the wire messages, one module per message file.

pub mod journey;
