//! Protocol translation that lets older Java Edition clients join a server
//! speaking the newest protocol.

pub mod version;
pub mod data;
pub mod codec;
pub mod nbt;
pub mod api;
pub mod packet;
pub mod pipeline;
pub mod hooks;
