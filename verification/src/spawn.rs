//! Integer rules of spawn selection: candidate jitter and the usable height window.

use vstd::prelude::*;

verus! {

/// Horizontal jitter of a spawn candidate from its hash `h`: two offsets in
/// `-20..=20`, taken from bits 8 and up and from bits 17 and up.
pub open spec fn jitter_of(h: u32) -> (int, int) {
    (((h >> 8u32) % 41) as int - 20, ((h >> 17u32) % 41) as int - 20)
}

/// Jitter of the spawn candidate with hash `h`.
pub fn spawn_jitter(h: u32) -> (j: (i32, i32))
    ensures
        (j.0 as int, j.1 as int) == jitter_of(h),
        j.0 == ((h / 256) % 41) as int - 20,
        j.1 == ((h / 131072) % 41) as int - 20,
        -20 <= j.0 <= 20,
        -20 <= j.1 <= 20,
{
    assert(h >> 8u32 == h / 256) by (bit_vector);
    assert(h >> 17u32 == h / 131072) by (bit_vector);
    let jitter_x = ((h >> 8) % 41) as i32 - 20;
    let jitter_z = ((h >> 17) % 41) as i32 - 20;
    (jitter_x, jitter_z)
}

/// A spawn surface at height `sy` leaves room below and above: `6 <= sy < 88`.
pub fn spawn_height_ok(sy: i32) -> (ok: bool)
    ensures
        ok == (6 <= sy < 88),
{
    6 <= sy && sy < crate::world::WORLD_H - 8
}

} // verus!
