//! A memory-safe model of libmpv's client interface: status codes, the
//! dynamically typed node format, and event records, with the conversions
//! between the foreign representation and owned values proved correct.
pub mod client;
pub mod error;
pub mod event;
pub mod node;
pub mod raw;
pub mod text;
