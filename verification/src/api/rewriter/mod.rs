//! Rewriters shared by several translation steps.

pub mod item_shape;
pub mod chat;
pub mod item;
pub mod block;
pub mod particle;
pub mod stats;
pub mod screen;
pub mod command;
pub mod item_component;
pub mod entity;
pub mod item_nbt;
