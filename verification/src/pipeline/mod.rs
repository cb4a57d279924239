//! The passes every packet goes through on its way between the server and a
//! client on another version.

pub mod id_pass;
pub mod item_pass;
pub mod chain;
