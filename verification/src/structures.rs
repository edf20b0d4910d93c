//! Small deterministic structures placed after base terrain generation.
//!
//! Structures write into the local column buffer before it is converted into
//! vertical runs.

use vstd::prelude::*;
use crate::world::{
    AIR, IDIM, WORLD_H, GenBlockIds, cell, get_world, in_column, same_tail, sections_ok,
    set_world,
};

verus! {

/// `(px, pz)` lies in the square of radius `r` around `(cx, cz)`.
pub open spec fn in_square(cx: int, cz: int, r: int, px: int, pz: int) -> bool {
    cx - r <= px <= cx + r && cz - r <= pz <= cz + r
}

/// The three sections keep their lengths and their entries past the first cube.
pub open spec fn tails_kept(
    o0: Seq<u32>,
    o1: Seq<u32>,
    o2: Seq<u32>,
    n0: Seq<u32>,
    n1: Seq<u32>,
    n2: Seq<u32>,
) -> bool {
    same_tail(o0, n0) && same_tail(o1, n1) && same_tail(o2, n2)
}

/// Fills the air cells of one horizontal square of leaves at height `ly`.
fn fill_canopy_layer(
    s0: &mut [u32],
    s1: &mut [u32],
    s2: &mut [u32],
    leaves: u32,
    cx: i32,
    ly: i32,
    cz: i32,
    r: i32,
)
    requires
        sections_ok(old(s0)@, old(s1)@, old(s2)@),
        0 <= r <= 2,
        i32::MIN + 2 <= cx <= i32::MAX - 2,
        i32::MIN + 2 <= cz <= i32::MAX - 2,
    ensures
        tails_kept(old(s0)@, old(s1)@, old(s2)@, final(s0)@, final(s1)@, final(s2)@),
        forall|px: int, py: int, pz: int|
            in_column(px, py, pz) ==> #[trigger] cell(final(s0)@, final(s1)@, final(s2)@, px, py, pz)
                == if py == ly && in_square(cx as int, cz as int, r as int, px, pz) && cell(
                old(s0)@,
                old(s1)@,
                old(s2)@,
                px,
                py,
                pz,
            ) == AIR {
                leaves
            } else {
                cell(old(s0)@, old(s1)@, old(s2)@, px, py, pz)
            },
{
    let ghost (o0, o1, o2) = (s0@, s1@, s2@);
    let mut dz: i32 = -r;
    while dz <= r
        invariant
            -r <= dz <= r + 1,
            0 <= r <= 2,
            i32::MIN + 2 <= cx <= i32::MAX - 2,
            i32::MIN + 2 <= cz <= i32::MAX - 2,
            sections_ok(s0@, s1@, s2@),
            tails_kept(o0, o1, o2, s0@, s1@, s2@),
            forall|px: int, py: int, pz: int|
                in_column(px, py, pz) ==> #[trigger] cell(s0@, s1@, s2@, px, py, pz) == if py == ly
                    && in_square(cx as int, cz as int, r as int, px, pz) && pz < cz + dz && cell(
                    o0,
                    o1,
                    o2,
                    px,
                    py,
                    pz,
                ) == AIR {
                    leaves
                } else {
                    cell(o0, o1, o2, px, py, pz)
                },
        decreases r + 1 - dz,
    {
        let mut dx: i32 = -r;
        while dx <= r
            invariant
                -r <= dz <= r,
                -r <= dx <= r + 1,
                0 <= r <= 2,
                i32::MIN + 2 <= cx <= i32::MAX - 2,
                i32::MIN + 2 <= cz <= i32::MAX - 2,
                sections_ok(s0@, s1@, s2@),
                tails_kept(o0, o1, o2, s0@, s1@, s2@),
                forall|px: int, py: int, pz: int|
                    in_column(px, py, pz) ==> #[trigger] cell(s0@, s1@, s2@, px, py, pz) == if py
                        == ly && in_square(cx as int, cz as int, r as int, px, pz) && (pz < cz + dz
                        || (pz == cz + dz && px < cx + dx)) && cell(o0, o1, o2, px, py, pz) == AIR {
                        leaves
                    } else {
                        cell(o0, o1, o2, px, py, pz)
                    },
            decreases r + 1 - dx,
        {
            if get_world(s0, s1, s2, cx + dx, ly, cz + dz) == AIR {
                set_world(s0, s1, s2, cx + dx, ly, cz + dz, leaves);
            }
            dx = dx + 1;
        }
        dz = dz + 1;
    }
}

/// Trunk height of a tree of the given variant: 4, 5 or 6.
pub open spec fn trunk_height(variant: u32) -> int {
    4 + (variant % 3) as int
}

/// Leaf radius at height `dy` above the tree base, or -1 where there are no leaves:
/// two squares of radius 2 around the trunk top, two of radius 1 above, one cell on top.
pub open spec fn canopy_radius(trunk_h: int, dy: int) -> int {
    if dy == trunk_h - 1 || dy == trunk_h {
        2
    } else if dy == trunk_h + 1 || dy == trunk_h + 2 {
        1
    } else if dy == trunk_h + 3 {
        0
    } else {
        -1
    }
}

/// The block at `(px, py, pz)` after a tree of trunk height `trunk_h` grew at
/// `(cx, y, cz)` over a column whose block there was `before`: the trunk
/// replaces whatever was there, leaves fill only what is then air.
pub open spec fn tree_block(
    before: u32,
    ids: GenBlockIds,
    cx: int,
    y: int,
    cz: int,
    trunk_h: int,
    px: int,
    py: int,
    pz: int,
) -> u32 {
    let with_trunk = if px == cx && pz == cz && y <= py < y + trunk_h {
        ids.log
    } else {
        before
    };
    let r = canopy_radius(trunk_h, py - y);
    if r >= 0 && in_square(cx, cz, r, px, pz) && with_trunk == AIR {
        ids.leaves
    } else {
        with_trunk
    }
}

/// The tree of `variant` fits below the top of the column when based at height `y`.
pub open spec fn tree_fits(y: int, variant: u32) -> bool {
    y + trunk_height(variant) + 4 < 96
}

/// Grows a tree with its trunk base at `(cx, y, cz)`; does nothing when the
/// crown would reach the top of the column.
pub fn place_tree(
    s0: &mut [u32],
    s1: &mut [u32],
    s2: &mut [u32],
    ids: GenBlockIds,
    cx: i32,
    y: i32,
    cz: i32,
    variant: u32,
)
    requires
        tree_fits(y as int, variant) ==> {
            &&& sections_ok(old(s0)@, old(s1)@, old(s2)@)
            &&& i32::MIN + 2 <= cx <= i32::MAX - 2
            &&& i32::MIN + 2 <= cz <= i32::MAX - 2
        },
    ensures
        tails_kept(old(s0)@, old(s1)@, old(s2)@, final(s0)@, final(s1)@, final(s2)@),
        forall|px: int, py: int, pz: int|
            in_column(px, py, pz) ==> #[trigger] cell(final(s0)@, final(s1)@, final(s2)@, px, py, pz)
                == if tree_fits(y as int, variant) {
                tree_block(
                    cell(old(s0)@, old(s1)@, old(s2)@, px, py, pz),
                    ids,
                    cx as int,
                    y as int,
                    cz as int,
                    trunk_height(variant),
                    px,
                    py,
                    pz,
                )
            } else {
                cell(old(s0)@, old(s1)@, old(s2)@, px, py, pz)
            },
{
    let ghost (o0, o1, o2) = (s0@, s1@, s2@);
    let trunk_h: i32 = 4 + (variant % 3) as i32;
    if (y as i64) + (trunk_h as i64) + 4 >= WORLD_H as i64 {
        return;
    }
    let mut dy: i32 = 0;
    while dy < trunk_h
        invariant
            0 <= dy <= trunk_h,
            trunk_h == trunk_height(variant),
            y + trunk_h + 4 < 96,
            sections_ok(s0@, s1@, s2@),
            tails_kept(o0, o1, o2, s0@, s1@, s2@),
            forall|px: int, py: int, pz: int|
                in_column(px, py, pz) ==> #[trigger] cell(s0@, s1@, s2@, px, py, pz) == if px == cx
                    && pz == cz && y <= py < y + dy {
                    ids.log
                } else {
                    cell(o0, o1, o2, px, py, pz)
                },
        decreases trunk_h - dy,
    {
        set_world(s0, s1, s2, cx, y + dy, cz, ids.log);
        dy = dy + 1;
    }
    let ghost (t0, t1, t2) = (s0@, s1@, s2@);
    let mut layer: i32 = 0;
    while layer < 5
        invariant
            0 <= layer <= 5,
            trunk_h == trunk_height(variant),
            y + trunk_h + 4 < 96,
            i32::MIN + 2 <= cx <= i32::MAX - 2,
            i32::MIN + 2 <= cz <= i32::MAX - 2,
            sections_ok(s0@, s1@, s2@),
            tails_kept(o0, o1, o2, t0, t1, t2),
            tails_kept(t0, t1, t2, s0@, s1@, s2@),
            forall|px: int, py: int, pz: int|
                in_column(px, py, pz) ==> #[trigger] cell(t0, t1, t2, px, py, pz) == if px == cx
                    && pz == cz && y <= py < y + trunk_h {
                    ids.log
                } else {
                    cell(o0, o1, o2, px, py, pz)
                },
            forall|px: int, py: int, pz: int|
                in_column(px, py, pz) ==> #[trigger] cell(s0@, s1@, s2@, px, py, pz) == if py < y
                    + trunk_h - 1 + layer {
                    tree_block(
                        cell(o0, o1, o2, px, py, pz),
                        ids,
                        cx as int,
                        y as int,
                        cz as int,
                        trunk_h as int,
                        px,
                        py,
                        pz,
                    )
                } else {
                    cell(t0, t1, t2, px, py, pz)
                },
        decreases 5 - layer,
    {
        let r: i32 = if layer < 2 {
            2
        } else if layer < 4 {
            1
        } else {
            0
        };
        fill_canopy_layer(s0, s1, s2, ids.leaves, cx, y + trunk_h - 1 + layer, cz, r);
        layer = layer + 1;
    }
}

/// Footprint width (along x) of a house of the given variant: 6 to 9.
pub open spec fn house_width(variant: u32) -> int {
    6 + (variant % 4) as int
}

/// Footprint depth (along z) of a house of the given variant: 6 to 9.
pub open spec fn house_depth(variant: u32) -> int {
    6 + ((variant >> 2u32) % 4) as int
}

/// The house of `variant` with its floor at `(x, y, z)` fits inside the column.
pub open spec fn house_fits(x: int, y: int, z: int, variant: u32) -> bool {
    x + house_width(variant) < 32 && z + house_depth(variant) < 32 && y + 5 < 96 && y >= 1
}

/// Cell `(dx, dy, dz)` of a `w` by 5 by `d` house box is cobblestone: the walls,
/// the floor and the roof, except the two-wide, three-high door in the front wall.
pub open spec fn house_shell(w: int, d: int, dx: int, dy: int, dz: int) -> bool {
    let wall = dx == 0 || dx == w - 1 || dz == 0 || dz == d - 1;
    let floor = dy == 0;
    let roof = dy == 4;
    let door = dz == 0 && (dx == w / 2 || dx == w / 2 - 1) && 1 <= dy <= 3;
    &&& 0 <= dx < w
    &&& 0 <= dy < 5
    &&& 0 <= dz < d
    &&& (wall || floor || roof)
    &&& !door
}

/// The block at `(px, py, pz)` after a house of `variant` was built with its
/// floor at `(x, y, z)` over a column whose block there was `before`: a
/// cobblestone foundation below the floor, the cobblestone shell, and a dirt
/// floor inside the walls.
pub open spec fn house_block(
    before: u32,
    ids: GenBlockIds,
    x: int,
    y: int,
    z: int,
    variant: u32,
    px: int,
    py: int,
    pz: int,
) -> u32 {
    let w = house_width(variant);
    let d = house_depth(variant);
    if py == y && x + 1 <= px < x + w - 1 && z + 1 <= pz < z + d - 1 {
        ids.dirt
    } else if house_shell(w, d, px - x, py - y, pz - z) {
        ids.cobblestone
    } else if py == y - 1 && x <= px < x + w && z <= pz < z + d {
        ids.cobblestone
    } else {
        before
    }
}

/// Sets every cell of the rectangle `x0 <= px < x1`, `z0 <= pz < z1` at height `y` to `id`.
fn fill_rect(
    s0: &mut [u32],
    s1: &mut [u32],
    s2: &mut [u32],
    id: u32,
    x0: i32,
    x1: i32,
    y: i32,
    z0: i32,
    z1: i32,
)
    requires
        sections_ok(old(s0)@, old(s1)@, old(s2)@),
    ensures
        tails_kept(old(s0)@, old(s1)@, old(s2)@, final(s0)@, final(s1)@, final(s2)@),
        forall|px: int, py: int, pz: int|
            in_column(px, py, pz) ==> #[trigger] cell(final(s0)@, final(s1)@, final(s2)@, px, py, pz)
                == if py == y && x0 <= px < x1 && z0 <= pz < z1 {
                id
            } else {
                cell(old(s0)@, old(s1)@, old(s2)@, px, py, pz)
            },
{
    let ghost (o0, o1, o2) = (s0@, s1@, s2@);
    let mut pz: i32 = z0;
    while pz < z1
        invariant
            z0 <= pz,
            pz <= z1 || pz == z0,
            sections_ok(s0@, s1@, s2@),
            tails_kept(o0, o1, o2, s0@, s1@, s2@),
            forall|qx: int, qy: int, qz: int|
                in_column(qx, qy, qz) ==> #[trigger] cell(s0@, s1@, s2@, qx, qy, qz) == if qy == y
                    && x0 <= qx < x1 && z0 <= qz < pz {
                    id
                } else {
                    cell(o0, o1, o2, qx, qy, qz)
                },
        decreases z1 - pz,
    {
        let mut px: i32 = x0;
        while px < x1
            invariant
                z0 <= pz < z1,
                x0 <= px,
                px <= x1 || px == x0,
                sections_ok(s0@, s1@, s2@),
                tails_kept(o0, o1, o2, s0@, s1@, s2@),
                forall|qx: int, qy: int, qz: int|
                    in_column(qx, qy, qz) ==> #[trigger] cell(s0@, s1@, s2@, qx, qy, qz) == if qy
                        == y && x0 <= qx < x1 && (z0 <= qz < pz || (qz == pz && qx < px)) {
                        id
                    } else {
                        cell(o0, o1, o2, qx, qy, qz)
                    },
            decreases x1 - px,
        {
            set_world(s0, s1, s2, px, y, pz, id);
            px = px + 1;
        }
        pz = pz + 1;
    }
}

/// Builds a small cobblestone house with its floor at `(x, y, z)`; does nothing
/// when the house would leave the column or has no room for its foundation.
pub fn place_house(
    s0: &mut [u32],
    s1: &mut [u32],
    s2: &mut [u32],
    ids: GenBlockIds,
    x: i32,
    y: i32,
    z: i32,
    variant: u32,
)
    requires
        house_fits(x as int, y as int, z as int, variant) ==> sections_ok(
            old(s0)@,
            old(s1)@,
            old(s2)@,
        ),
    ensures
        tails_kept(old(s0)@, old(s1)@, old(s2)@, final(s0)@, final(s1)@, final(s2)@),
        forall|px: int, py: int, pz: int|
            in_column(px, py, pz) ==> #[trigger] cell(final(s0)@, final(s1)@, final(s2)@, px, py, pz)
                == if house_fits(x as int, y as int, z as int, variant) {
                house_block(
                    cell(old(s0)@, old(s1)@, old(s2)@, px, py, pz),
                    ids,
                    x as int,
                    y as int,
                    z as int,
                    variant,
                    px,
                    py,
                    pz,
                )
            } else {
                cell(old(s0)@, old(s1)@, old(s2)@, px, py, pz)
            },
{
    let ghost (o0, o1, o2) = (s0@, s1@, s2@);
    let w: i32 = 6 + (variant % 4) as i32;
    let d: i32 = 6 + ((variant >> 2) % 4) as i32;
    let h: i32 = 5;
    if (x as i64) + (w as i64) >= IDIM as i64 || (z as i64) + (d as i64) >= IDIM as i64 || (y as i64)
        + (h as i64) >= WORLD_H as i64 || y < 1 {
        return;
    }
    fill_rect(s0, s1, s2, ids.cobblestone, x, x + w, y - 1, z, z + d);
    let ghost (f0, f1, f2) = (s0@, s1@, s2@);
    let mut dy: i32 = 0;
    while dy < h
        invariant
            0 <= dy <= h,
            h == 5,
            w == house_width(variant),
            d == house_depth(variant),
            house_fits(x as int, y as int, z as int, variant),
            sections_ok(s0@, s1@, s2@),
            tails_kept(o0, o1, o2, f0, f1, f2),
            tails_kept(f0, f1, f2, s0@, s1@, s2@),
            forall|qx: int, qy: int, qz: int|
                in_column(qx, qy, qz) ==> #[trigger] cell(f0, f1, f2, qx, qy, qz) == if qy == y - 1
                    && x <= qx < x + w && z <= qz < z + d {
                    ids.cobblestone
                } else {
                    cell(o0, o1, o2, qx, qy, qz)
                },
            forall|qx: int, qy: int, qz: int|
                in_column(qx, qy, qz) ==> #[trigger] cell(s0@, s1@, s2@, qx, qy, qz) == if qy < y
                    + dy && house_shell(w as int, d as int, qx - x, qy - y, qz - z) {
                    ids.cobblestone
                } else {
                    cell(f0, f1, f2, qx, qy, qz)
                },
        decreases h - dy,
    {
        let mut dz: i32 = 0;
        while dz < d
            invariant
                0 <= dy < h,
                0 <= dz <= d,
                h == 5,
                w == house_width(variant),
                d == house_depth(variant),
                house_fits(x as int, y as int, z as int, variant),
                sections_ok(s0@, s1@, s2@),
                tails_kept(f0, f1, f2, s0@, s1@, s2@),
                forall|qx: int, qy: int, qz: int|
                    in_column(qx, qy, qz) ==> #[trigger] cell(s0@, s1@, s2@, qx, qy, qz) == if (qy
                        < y + dy || (qy == y + dy && qz < z + dz)) && house_shell(
                        w as int,
                        d as int,
                        qx - x,
                        qy - y,
                        qz - z,
                    ) {
                        ids.cobblestone
                    } else {
                        cell(f0, f1, f2, qx, qy, qz)
                    },
            decreases d - dz,
        {
            let mut dx: i32 = 0;
            while dx < w
                invariant
                    0 <= dy < h,
                    0 <= dz < d,
                    0 <= dx <= w,
                    h == 5,
                    w == house_width(variant),
                    d == house_depth(variant),
                    house_fits(x as int, y as int, z as int, variant),
                    sections_ok(s0@, s1@, s2@),
                    tails_kept(f0, f1, f2, s0@, s1@, s2@),
                    forall|qx: int, qy: int, qz: int|
                        in_column(qx, qy, qz) ==> #[trigger] cell(s0@, s1@, s2@, qx, qy, qz) == if (
                        qy < y + dy || (qy == y + dy && qz < z + dz) || (qy == y + dy && qz == z
                            + dz && qx < x + dx)) && house_shell(
                            w as int,
                            d as int,
                            qx - x,
                            qy - y,
                            qz - z,
                        ) {
                            ids.cobblestone
                        } else {
                            cell(f0, f1, f2, qx, qy, qz)
                        },
                decreases w - dx,
            {
                let wall = dx == 0 || dx == w - 1 || dz == 0 || dz == d - 1;
                let floor = dy == 0;
                let roof = dy == h - 1;
                let door = dz == 0 && (dx == w / 2 || dx == w / 2 - 1) && dy >= 1 && dy <= 3;
                if !door && (wall || floor || roof) {
                    set_world(s0, s1, s2, x + dx, y + dy, z + dz, ids.cobblestone);
                }
                dx = dx + 1;
            }
            dz = dz + 1;
        }
        dy = dy + 1;
    }
    fill_rect(s0, s1, s2, ids.dirt, x + 1, x + w - 1, y, z + 1, z + d - 1);
}

/// A tree never replaces a block outside its trunk: leaves only fill air.
pub proof fn lemma_tree_keeps_blocks(
    before: u32,
    ids: GenBlockIds,
    cx: int,
    y: int,
    cz: int,
    trunk_h: int,
    px: int,
    py: int,
    pz: int,
)
    requires
        before != AIR,
        !(px == cx && pz == cz && y <= py < y + trunk_h),
    ensures
        tree_block(before, ids, cx, y, cz, trunk_h, px, py, pz) == before,
{
}

/// A house changes nothing outside its box: its footprint, from the
/// foundation below the floor to the roof.
pub proof fn lemma_house_in_footprint(
    before: u32,
    ids: GenBlockIds,
    x: int,
    y: int,
    z: int,
    variant: u32,
    px: int,
    py: int,
    pz: int,
)
    requires
        !(x <= px < x + house_width(variant) && z <= pz < z + house_depth(variant) && y - 1 <= py
            < y + 5),
    ensures
        house_block(before, ids, x, y, z, variant, px, py, pz) == before,
{
}

/// The layout of a house of `variant`, `w = 6 + variant % 4` wide and
/// `d = 6 + (variant >> 2) % 4` deep, with its floor at `(x, y, z)`: a
/// cobblestone foundation below the floor, cobblestone walls on all four sides
/// from floor to roof except a two-wide, three-high door in the front wall
/// (`dz == 0`), a cobblestone roof, a dirt floor inside the walls, and the
/// door and the rooms left as they were.
pub proof fn lemma_house_layout(
    before: u32,
    ids: GenBlockIds,
    x: int,
    y: int,
    z: int,
    variant: u32,
    dx: int,
    dy: int,
    dz: int,
)
    ensures
        ({
            let w = 6 + (variant % 4) as int;
            let d = 6 + ((variant >> 2u32) % 4) as int;
            let b = house_block(before, ids, x, y, z, variant, x + dx, y + dy, z + dz);
            let door = dz == 0 && (dx == w / 2 - 1 || dx == w / 2) && 1 <= dy <= 3;
            let interior = 1 <= dx < w - 1 && 1 <= dz < d - 1;
            &&& dy == -1 && 0 <= dx < w && 0 <= dz < d ==> b == ids.cobblestone
            &&& 0 <= dy < 5 && 0 <= dx < w && (dz == 0 || dz == d - 1) && !door ==> b
                == ids.cobblestone
            &&& 0 <= dy < 5 && 0 <= dz < d && (dx == 0 || dx == w - 1) ==> b == ids.cobblestone
            &&& dy == 4 && 0 <= dx < w && 0 <= dz < d ==> b == ids.cobblestone
            &&& dy == 0 && interior ==> b == ids.dirt
            &&& door ==> b == before
            &&& 1 <= dy <= 3 && interior ==> b == before
        }),
{
}

/// The layout of a tree of `variant` with its trunk base at `(cx, y, cz)`: a
/// trunk of `t = 4 + variant % 3` logs; leaves filling the air of two squares
/// of radius 2 at the top two trunk heights, two squares of radius 1 above,
/// and one cell on top; everything else left as it was.
pub proof fn lemma_tree_layout(
    before: u32,
    ids: GenBlockIds,
    cx: int,
    y: int,
    cz: int,
    variant: u32,
    dx: int,
    dy: int,
    dz: int,
)
    ensures
        ({
            let t = 4 + (variant % 3) as int;
            let b = tree_block(before, ids, cx, y, cz, trunk_height(variant), cx + dx, y + dy, cz + dz);
            let trunk = dx == 0 && dz == 0 && 0 <= dy < t;
            let crown = (dy == t - 1 || dy == t) && -2 <= dx <= 2 && -2 <= dz <= 2 || (dy == t + 1
                || dy == t + 2) && -1 <= dx <= 1 && -1 <= dz <= 1 || dy == t + 3 && dx == 0 && dz
                == 0;
            &&& trunk && ids.log != AIR ==> b == ids.log
            &&& crown && !trunk && before == AIR ==> b == ids.leaves
            &&& crown && !trunk && before != AIR ==> b == before
            &&& !crown && !trunk ==> b == before
        }),
{
}

} // verus!
