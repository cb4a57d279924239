//! `SPAWN_PAINTING`, which versions up to 1.18.2 spawn a painting with.

use vstd::prelude::*;

verus! {

/// The 2D facing `SPAWN_PAINTING` wants for the 3D facing index 26.3 uses:
/// north, south, west and east; nothing for up, down or anything else.
pub open spec fn spec_direction_2d(index: i32) -> Option<u8> {
    if index == 2 { Some(2) }
    else if index == 3 { Some(0) }
    else if index == 4 { Some(1) }
    else if index == 5 { Some(3) }
    else { None }
}

/// Converts the 3D facing index 26.3 uses to the 2D value `SPAWN_PAINTING`
/// wants; `None` for vertical or out of range facings.
pub fn direction_2d_from_3d_index(index: i32) -> (r: Option<u8>)
    ensures
        r == spec_direction_2d(index),
{
    match index {
        2 => Some(2),
        3 => Some(0),
        4 => Some(1),
        5 => Some(3),
        _ => None,
    }
}

/// Distinct horizontal facings stay distinct in 2D.
pub proof fn law_direction_2d_is_injective(a: i32, b: i32)
    requires
        spec_direction_2d(a) is Some,
        spec_direction_2d(a) == spec_direction_2d(b),
    ensures
        a == b,
{
}

} // verus!
