//! The binary protocol: header sections, messages and whole packets.

pub mod header;
pub mod message;
pub mod packet;
