//! A minimal receipt registry: immutable payment receipts keyed by a string
//! identifier, stored in a single associative container, with a notification
//! value produced for every successful mint.
//!
//! The host hands each entry point its parameter as raw bytes in the host's
//! serialization convention (little-endian fixed-width integers, `u32`
//! length-prefixed UTF-8 strings); `codec` decodes them, `store` holds the
//! records, and `entry` ties the two together.

pub mod codec;
pub mod entry;
pub mod receipt;
pub mod store;
