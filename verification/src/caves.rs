//! Cave masks used during terrain filling.
//!
//! A mask says `true` when a terrain block should be skipped, leaving air in
//! the column buffer. Each mask opens only inside a depth band below the
//! surface; inside the band the verdict of its noise field decides.

use vstd::prelude::*;

verus! {

/// Tunnels stay between heights 2 and 28 and at least 6 blocks below the surface.
pub open spec fn tunnel_band(wy: int, surface_h: int) -> bool {
    1 < wy <= 28 && surface_h - wy >= 6
}

/// Cheese pockets stay between heights 3 and 20 and at least 8 blocks below the surface.
pub open spec fn cheese_band(wy: int, surface_h: int) -> bool {
    2 < wy <= 20 && surface_h - wy >= 8
}

/// Halls stay between heights 3 and 16 and at least 10 blocks below the surface.
pub open spec fn hall_band(wy: int, surface_h: int) -> bool {
    2 < wy <= 16 && surface_h - wy >= 10
}

/// Height `wy` under a surface at `surface_h` is deep enough for a tunnel.
pub fn in_tunnel_band(wy: i32, surface_h: i32) -> (b: bool)
    ensures
        b == tunnel_band(wy as int, surface_h as int),
        b == (2 <= wy <= 28 && wy + 6 <= surface_h),
{
    if wy <= 1 || wy > 28 {
        return false;
    }
    (surface_h as i64) - (wy as i64) >= 6
}

/// Height `wy` under a surface at `surface_h` is deep enough for a cheese pocket.
pub fn in_cheese_band(wy: i32, surface_h: i32) -> (b: bool)
    ensures
        b == cheese_band(wy as int, surface_h as int),
        b == (3 <= wy <= 20 && wy + 8 <= surface_h),
{
    if wy <= 2 || wy > 20 {
        return false;
    }
    (surface_h as i64) - (wy as i64) >= 8
}

/// Height `wy` under a surface at `surface_h` is deep enough for a hall.
pub fn in_hall_band(wy: i32, surface_h: i32) -> (b: bool)
    ensures
        b == hall_band(wy as int, surface_h as int),
        b == (3 <= wy <= 16 && wy + 10 <= surface_h),
{
    if wy <= 2 || wy > 16 {
        return false;
    }
    (surface_h as i64) - (wy as i64) >= 10
}

/// Tunnel mask. `narrow` says that both tunnel noise fields are within 0.11 of
/// zero at the cell, `wide` that both are within 0.13; the narrow test applies
/// below height 8, the wide one above.
pub fn is_cave(wy: i32, surface_h: i32, narrow: bool, wide: bool) -> (open: bool)
    ensures
        open == (tunnel_band(wy as int, surface_h as int) && if wy < 8 {
            narrow
        } else {
            wide
        }),
        open == ((2 <= wy < 8 && wy + 6 <= surface_h && narrow) || (8 <= wy <= 28 && wy + 6
            <= surface_h && wide)),
{
    if !in_tunnel_band(wy, surface_h) {
        return false;
    }
    if wy < 8 {
        narrow
    } else {
        wide
    }
}

/// Cheese-pocket mask. `noise_high` says that the pocket noise field exceeds 0.47 at the cell.
pub fn is_cheese_cave(wy: i32, surface_h: i32, noise_high: bool) -> (open: bool)
    ensures
        open == (cheese_band(wy as int, surface_h as int) && noise_high),
        open == (3 <= wy <= 20 && wy + 8 <= surface_h && noise_high),
{
    if !in_cheese_band(wy, surface_h) {
        return false;
    }
    noise_high
}

/// Hall mask. `noise_high` says that the hall noise field exceeds 0.50 at the cell.
pub fn is_cave_hall(wy: i32, surface_h: i32, noise_high: bool) -> (open: bool)
    ensures
        open == (hall_band(wy as int, surface_h as int) && noise_high),
        open == (3 <= wy <= 16 && wy + 10 <= surface_h && noise_high),
{
    if !in_hall_band(wy, surface_h) {
        return false;
    }
    noise_high
}

} // verus!
