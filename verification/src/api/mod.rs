//! The pieces a translation step is written with.

pub mod types;
pub mod wrapper;
pub mod connection;
pub mod protocol;
pub mod rewriter;
pub mod entity_data;
pub mod item;

use vstd::prelude::*;
use crate::version::JavaMinecraftVersion;

verus! {

/// One boundary of the step chain, `from` newer than `to`.
#[derive(Clone, Copy, Debug, PartialEq, Eq, Structural)]
pub struct Step {
    pub from: JavaMinecraftVersion,
    pub to: JavaMinecraftVersion,
}

/// Why a packet could not be translated.
#[derive(Clone, Copy, Debug, PartialEq, Eq)]
pub enum TranslateError {
    /// The payload is not the field it was read as.
    Read,
    /// A value could not be written, such as a run too long for its length prefix.
    Write,
    /// The payload is well formed but holds something this translation cannot carry.
    Unsupported(&'static str),
    /// Input was left over once the packet was finished.
    TrailingBytes(usize),
}

} // verus!
