//! Spawn packets older clients have and 26.3 folded into `ADD_ENTITY`.

pub mod spawn_painting;
