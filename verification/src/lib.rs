//! Client-side codec and control logic for LIFX lights on the local network.

pub mod client;
pub mod color;
pub mod device;
pub mod error;
pub mod light;
pub mod protocol;
pub mod text;
pub mod wire;
