//! Surface and geology material selection.
//!
//! The material palette is small and natural: grass, dirt, stone, sand,
//! gravel and snow. Which one a cell gets depends on its depth below the
//! surface, the steepness of the terrain, mountain terrain, and a few climate
//! cues sampled for the column.

use vstd::prelude::*;
use crate::world::{GenBlockIds, cell, in_column, sections_ok, set_world};
use crate::structures::tails_kept;

verus! {

/// Where a terrain cell sits: its world column, its height, the surface height
/// of the column, the steepness around it and whether it is mountain terrain.
#[derive(Clone, Copy)]
pub struct SurfaceContext {
    pub wx: i32,
    pub wz: i32,
    pub y: i32,
    pub surface_h: i32,
    /// Largest height difference to the four neighbouring columns.
    pub slope: u32,
    pub is_mountain: bool,
}

/// Climate cues of a column, sampled from its climate and patch noise.
#[derive(Clone, Copy)]
pub struct SurfaceCues {
    /// Temperature below 0.45.
    pub cold: bool,
    /// Humidity below 0.34.
    pub dry: bool,
    /// Grass chance (humidity and forestation) above 0.14.
    pub lush: bool,
    /// Patch noise above 0.32: exposed slopes show gravel.
    pub gravel_patch: bool,
    /// Patch noise above 0.30: dry lowland surfaces show sand.
    pub sand_patch: bool,
}

/// The material of the cell described by `ctx` under the cues `cues`.
pub open spec fn material_of(ctx: SurfaceContext, cues: SurfaceCues, ids: GenBlockIds) -> u32 {
    let depth = ctx.surface_h - ctx.y;
    let alpine = ctx.surface_h > 38 || (ctx.surface_h > 30 && cues.cold);
    let steep = ctx.slope > 2;
    let very_steep = ctx.slope > 3;
    if depth >= 8 {
        ids.stone
    } else if depth >= 3 {
        if ctx.is_mountain && steep {
            ids.stone
        } else {
            ids.dirt
        }
    } else if depth == 0 {
        if alpine && cues.cold && !very_steep {
            ids.snow
        } else if very_steep {
            ids.stone
        } else if steep || ctx.is_mountain {
            if cues.gravel_patch {
                ids.gravel
            } else {
                ids.stone
            }
        } else if cues.dry && ctx.surface_h <= 28 && cues.sand_patch {
            ids.sand
        } else if cues.lush {
            ids.grass
        } else if cues.dry {
            ids.sand
        } else {
            ids.dirt
        }
    } else {
        if alpine && cues.cold && depth <= 1 {
            ids.snow
        } else if steep && depth <= 2 {
            ids.gravel
        } else if cues.dry && ctx.surface_h <= 28 && depth <= 2 {
            ids.sand
        } else {
            ids.dirt
        }
    }
}

/// The material rules by depth below the surface: stone from 8 down; between
/// 3 and 7 dirt, or stone on steep mountain terrain; at the surface snow on
/// cold high ground that is not too steep, bare stone or gravel on steep or
/// mountain ground, sand patches on dry lowland, and otherwise grass where it
/// is lush, sand where it is dry and dirt; just below the surface snow under
/// cold high ground, gravel on steep ground, sand on dry lowland, else dirt.
pub proof fn lemma_material_rules(ctx: SurfaceContext, cues: SurfaceCues, ids: GenBlockIds)
    ensures
        ({
            let m = material_of(ctx, cues, ids);
            let depth = ctx.surface_h - ctx.y;
            let snowy = cues.cold && ctx.surface_h > 30;
            let lowland_sand = cues.dry && ctx.surface_h <= 28;
            &&& depth >= 8 ==> m == ids.stone
            &&& 3 <= depth < 8 && ctx.is_mountain && ctx.slope > 2 ==> m == ids.stone
            &&& 3 <= depth < 8 && !(ctx.is_mountain && ctx.slope > 2) ==> m == ids.dirt
            &&& depth == 0 && snowy && ctx.slope <= 3 ==> m == ids.snow
            &&& depth == 0 && !snowy && ctx.slope > 3 ==> m == ids.stone
            &&& depth == 0 && !snowy && ctx.slope <= 3 && (ctx.slope > 2 || ctx.is_mountain) ==> m == (
            if cues.gravel_patch {
                ids.gravel
            } else {
                ids.stone
            })
            &&& depth == 0 && ctx.slope > 3 && snowy ==> m == ids.stone
            &&& depth == 0 && !snowy && ctx.slope <= 2 && !ctx.is_mountain && lowland_sand
                && cues.sand_patch ==> m == ids.sand
            &&& depth == 0 && !snowy && ctx.slope <= 2 && !ctx.is_mountain && !(lowland_sand
                && cues.sand_patch) ==> m == (if cues.lush {
                ids.grass
            } else if cues.dry {
                ids.sand
            } else {
                ids.dirt
            })
            &&& depth < 3 && depth != 0 && snowy && depth <= 1 ==> m == ids.snow
            &&& depth < 3 && depth != 0 && !(snowy && depth <= 1) && ctx.slope > 2 ==> m
                == ids.gravel
            &&& depth < 3 && depth != 0 && !(snowy && depth <= 1) && ctx.slope <= 2
                && lowland_sand ==> m == ids.sand
            &&& depth < 3 && depth != 0 && !(snowy && depth <= 1) && ctx.slope <= 2
                && !lowland_sand ==> m == ids.dirt
        }),
{
}

/// `id` is one of the six palette materials.
pub open spec fn in_palette(id: u32, ids: GenBlockIds) -> bool {
    id == ids.grass || id == ids.dirt || id == ids.stone || id == ids.sand || id == ids.gravel
        || id == ids.snow
}

/// Chooses the material of one terrain cell.
pub fn terrain_material(ctx: SurfaceContext, cues: SurfaceCues, ids: GenBlockIds) -> (id: u32)
    ensures
        id == material_of(ctx, cues, ids),
        in_palette(id, ids),
        ctx.surface_h - ctx.y >= 8 ==> id == ids.stone,
        3 <= ctx.surface_h - ctx.y < 8 ==> id == if ctx.is_mountain && ctx.slope > 2 {
            ids.stone
        } else {
            ids.dirt
        },
{
    let depth: i64 = (ctx.surface_h as i64) - (ctx.y as i64);
    let cold = cues.cold;
    let dry = cues.dry;
    let alpine = ctx.surface_h > 38 || (ctx.surface_h > 30 && cold);
    let steep = ctx.slope > 2;
    let very_steep = ctx.slope > 3;

    if depth >= 8 {
        return ids.stone;
    }
    if depth >= 3 {
        if ctx.is_mountain && steep {
            return ids.stone;
        }
        return ids.dirt;
    }
    if depth == 0 {
        if alpine && cold && !very_steep {
            return ids.snow;
        }
        if very_steep {
            return ids.stone;
        }
        if steep || ctx.is_mountain {
            return if cues.gravel_patch {
                ids.gravel
            } else {
                ids.stone
            };
        }
        if dry && ctx.surface_h <= 28 && cues.sand_patch {
            return ids.sand;
        }
        if cues.lush {
            ids.grass
        } else if dry {
            ids.sand
        } else {
            ids.dirt
        }
    } else {
        if alpine && cold && depth <= 1 {
            return ids.snow;
        }
        if steep && depth <= 2 {
            return ids.gravel;
        }
        if dry && ctx.surface_h <= 28 && depth <= 2 {
            return ids.sand;
        }
        ids.dirt
    }
}

/// Absolute value.
pub open spec fn abs(v: int) -> int {
    if v < 0 {
        -v
    } else {
        v
    }
}

/// The larger of two values.
pub open spec fn max(a: int, b: int) -> int {
    if a < b {
        b
    } else {
        a
    }
}

/// The slope is the largest of the four height differences to the
/// neighbours: at least each of them, and equal to one of them.
pub proof fn lemma_slope_is_largest_difference(h: int, east: int, west: int, south: int, north: int)
    ensures
        slope_of(h, east, west, south, north) >= abs(east - h),
        slope_of(h, east, west, south, north) >= abs(west - h),
        slope_of(h, east, west, south, north) >= abs(south - h),
        slope_of(h, east, west, south, north) >= abs(north - h),
        slope_of(h, east, west, south, north) == abs(east - h) || slope_of(h, east, west, south, north)
            == abs(west - h) || slope_of(h, east, west, south, north) == abs(south - h) || slope_of(
            h,
            east,
            west,
            south,
            north,
        ) == abs(north - h),
{
}

/// The slope at a column of height `h` whose east, west, south and north
/// neighbours have the given heights: the largest height difference.
pub open spec fn slope_of(h: int, east: int, west: int, south: int, north: int) -> int {
    max(max(abs(east - h), abs(west - h)), max(abs(south - h), abs(north - h)))
}

/// Absolute difference of two heights.
fn height_diff(a: i32, b: i32) -> (d: u32)
    ensures
        d == abs(a - b),
{
    let v: i64 = (a as i64) - (b as i64);
    if v < 0 {
        (-v) as u32
    } else {
        v as u32
    }
}

/// Steepness at world column `(x, z)`: the largest height difference between
/// the column and its four horizontal neighbours, with heights from `height_at`.
pub fn slope_at<F: Fn(i32, i32) -> i32>(x: i32, z: i32, height_at: F) -> (slope: u32)
    requires
        i32::MIN < x < i32::MAX,
        i32::MIN < z < i32::MAX,
        height_at.requires((x, z)),
        height_at.requires(((x + 1) as i32, z)),
        height_at.requires(((x - 1) as i32, z)),
        height_at.requires((x, (z + 1) as i32)),
        height_at.requires((x, (z - 1) as i32)),
    ensures
        exists|h: i32, east: i32, west: i32, south: i32, north: i32|
            {
                &&& height_at.ensures((x, z), h)
                &&& height_at.ensures(((x + 1) as i32, z), east)
                &&& height_at.ensures(((x - 1) as i32, z), west)
                &&& height_at.ensures((x, (z + 1) as i32), south)
                &&& height_at.ensures((x, (z - 1) as i32), north)
                &&& slope == slope_of(h as int, east as int, west as int, south as int, north as int)
                &&& slope >= abs(east - h) && slope >= abs(west - h)
                &&& slope >= abs(south - h) && slope >= abs(north - h)
                &&& (slope == abs(east - h) || slope == abs(west - h) || slope == abs(south - h)
                    || slope == abs(north - h))
            },
{
    let h = height_at(x, z);
    let east = height_at(x + 1, z);
    let west = height_at(x - 1, z);
    let south = height_at(x, z + 1);
    let north = height_at(x, z - 1);
    let dx1 = height_diff(east, h);
    let dx2 = height_diff(west, h);
    let dz1 = height_diff(south, h);
    let dz2 = height_diff(north, h);
    let dx = if dx1 < dx2 {
        dx2
    } else {
        dx1
    };
    let dz = if dz1 < dz2 {
        dz2
    } else {
        dz1
    };
    let slope = if dx < dz {
        dz
    } else {
        dx
    };
    assert(height_at.ensures((x, z), h) && height_at.ensures(((x + 1) as i32, z), east)
        && height_at.ensures(((x - 1) as i32, z), west) && height_at.ensures((x, (z + 1) as i32), south)
        && height_at.ensures((x, (z - 1) as i32), north) && slope == slope_of(
        h as int,
        east as int,
        west as int,
        south as int,
        north as int,
    ));
    slope
}

/// `ctx` moved to height `y` of its column.
pub open spec fn at_height(ctx: SurfaceContext, y: int) -> SurfaceContext {
    SurfaceContext { y: y as i32, ..ctx }
}

/// Fills local column `(x, z)` from height 0 up to and including the surface
/// height of `ctx` with terrain materials, leaving air where `open[y]` says a
/// cave opens.
pub fn fill_terrain_column(
    s0: &mut [u32],
    s1: &mut [u32],
    s2: &mut [u32],
    ids: GenBlockIds,
    x: i32,
    z: i32,
    ctx: SurfaceContext,
    cues: SurfaceCues,
    open: &[bool],
)
    requires
        sections_ok(old(s0)@, old(s1)@, old(s2)@),
        ctx.surface_h < open@.len(),
    ensures
        tails_kept(old(s0)@, old(s1)@, old(s2)@, final(s0)@, final(s1)@, final(s2)@),
        forall|px: int, py: int, pz: int|
            in_column(px, py, pz) ==> #[trigger] cell(final(s0)@, final(s1)@, final(s2)@, px, py, pz)
                == if px == x && pz == z && 0 <= py <= ctx.surface_h && !open@[py] {
                material_of(at_height(ctx, py), cues, ids)
            } else {
                cell(old(s0)@, old(s1)@, old(s2)@, px, py, pz)
            },
{
    let ghost (o0, o1, o2) = (s0@, s1@, s2@);
    let h = ctx.surface_h;
    let mut y: i64 = 0;
    while y <= h as i64
        invariant
            0 <= y <= h + 1 || (y == 0 && h < 0),
            h == ctx.surface_h,
            h < open@.len(),
            sections_ok(s0@, s1@, s2@),
            tails_kept(o0, o1, o2, s0@, s1@, s2@),
            forall|px: int, py: int, pz: int|
                in_column(px, py, pz) ==> #[trigger] cell(s0@, s1@, s2@, px, py, pz) == if px == x
                    && pz == z && 0 <= py < y && !open@[py] {
                    material_of(at_height(ctx, py), cues, ids)
                } else {
                    cell(o0, o1, o2, px, py, pz)
                },
        decreases h - y + 1,
    {
        let cy = y as i32;
        if !open[cy as usize] {
            let here = SurfaceContext {
                wx: ctx.wx,
                wz: ctx.wz,
                y: cy,
                surface_h: h,
                slope: ctx.slope,
                is_mountain: ctx.is_mountain,
            };
            let id = terrain_material(here, cues, ids);
            assert(here == at_height(ctx, y as int));
            set_world(s0, s1, s2, x, cy, z, id);
        }
        y = y + 1;
    }
}

} // verus!
