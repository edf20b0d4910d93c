//! Where structures go in a generated column: at most one house, and trees
//! scattered by hash with climate, altitude, slope and house clearance rules.

use vstd::prelude::*;
use crate::world::{GenBlockIds, cell, get_world, in_column, sections_ok};
use crate::structures::{
    house_block, house_fits, place_house, place_tree, tails_kept, tree_block, trunk_height,
};

verus! {

/// A house is wanted in a column when its hash is a multiple of 85 and the
/// column centre is lowland (little mountain, mostly plains or forest).
pub fn wants_house(ch: u32, lowland: bool) -> (wanted: bool)
    ensures
        wanted == (ch % 85 == 0 && lowland),
{
    ch % 85 == 0 && lowland
}

/// Local `x` of the house picked by hash `hh`: 5 to 18.
pub open spec fn house_x(hh: u32) -> int {
    (hh % 14) as int + 5
}

/// Local `z` of the house picked by hash `hh`: 5 to 18.
pub open spec fn house_z(hh: u32) -> int {
    ((hh >> 8u32) % 14) as int + 5
}

/// Height of the ground at local `(x, z)` in the height map of a column.
pub open spec fn ground_at(heights: Seq<i32>, x: int, z: int) -> int {
    heights[x + 32 * z] as int
}

/// The site of the house picked by hash `hh`: its local `x`, floor height and
/// local `z`, when the ground there is high enough and leaves room for the house.
pub open spec fn house_site_of(hh: u32, heights: Seq<i32>) -> Option<(i32, i32, i32)> {
    let g = ground_at(heights, house_x(hh), house_z(hh));
    if g >= 1 && g + 7 < 96 {
        Some((house_x(hh) as i32, (g + 1) as i32, house_z(hh) as i32))
    } else {
        None
    }
}

/// Picks the house site for hash `hh` in a column with height map `heights`.
pub fn house_site(hh: u32, heights: &[i32]) -> (site: Option<(i32, i32, i32)>)
    requires
        heights@.len() >= 1024,
    ensures
        site == house_site_of(hh, heights@),
        site matches Some((x, y, z)) ==> house_fits(x as int, y as int, z as int, hh),
        ({
            let hx = (hh % 14) as int + 5;
            let hz = ((hh >> 8u32) % 14) as int + 5;
            let ground = heights@[hx + 32 * hz] as int;
            &&& site is Some <==> 1 <= ground && ground + 7 < 96
            &&& site matches Some((x, y, z)) ==> x == hx && y == ground + 1 && z == hz
        }),
{
    let hx = (hh % 14) as i32 + 5;
    let hz = ((hh >> 8) % 14) as i32 + 5;
    let ground = heights[hx as usize + 32 * hz as usize];
    if ground >= 1 && (ground as i64) + 7 < 96 {
        Some((hx, ground + 1, hz))
    } else {
        None
    }
}

/// Builds the house picked by hash `hh` where its site allows one; returns the
/// local `(x, z)` of the house.
pub fn settle(
    s0: &mut [u32],
    s1: &mut [u32],
    s2: &mut [u32],
    ids: GenBlockIds,
    hh: u32,
    heights: &[i32],
) -> (house: Option<(i32, i32)>)
    requires
        sections_ok(old(s0)@, old(s1)@, old(s2)@),
        heights@.len() >= 1024,
    ensures
        tails_kept(old(s0)@, old(s1)@, old(s2)@, final(s0)@, final(s1)@, final(s2)@),
        house == (match house_site_of(hh, heights@) {
            Some((x, _y, z)) => Some((x, z)),
            None => None,
        }),
        forall|px: int, py: int, pz: int|
            in_column(px, py, pz) ==> #[trigger] cell(final(s0)@, final(s1)@, final(s2)@, px, py, pz)
                == match house_site_of(hh, heights@) {
                Some((x, y, z)) => house_block(
                    cell(old(s0)@, old(s1)@, old(s2)@, px, py, pz),
                    ids,
                    x as int,
                    y as int,
                    z as int,
                    hh,
                    px,
                    py,
                    pz,
                ),
                None => cell(old(s0)@, old(s1)@, old(s2)@, px, py, pz),
            },
{
    match house_site(hh, heights) {
        Some((hx, floor_y, hz)) => {
            place_house(s0, s1, s2, ids, hx, floor_y, hz, hh);
            Some((hx, hz))
        },
        None => None,
    }
}

/// Local `x` of the tree picked by hash `th`: 5 to 26.
pub open spec fn tree_x(th: u32) -> int {
    (th % 22) as int + 5
}

/// Local `z` of the tree picked by hash `th`: 5 to 26.
pub open spec fn tree_z(th: u32) -> int {
    ((th >> 8u32) % 22) as int + 5
}

/// Local `(x, z)` of the tree picked by hash `th`.
pub fn tree_spot(th: u32) -> (spot: (i32, i32))
    ensures
        spot.0 as int == tree_x(th),
        spot.1 as int == tree_z(th),
{
    ((th % 22) as i32 + 5, ((th >> 8) % 22) as i32 + 5)
}

/// `(tx, tz)` is closer than 10 blocks to the house at `house`, if any.
pub open spec fn near_house(tx: int, tz: int, house: Option<(i32, i32)>) -> bool {
    match house {
        Some((hx, hz)) => (tx - hx) * (tx - hx) + (tz - hz) * (tz - hz) < 100,
        None => false,
    }
}

/// The spot of the tree picked by hash `th`: its local `x`, ground height and
/// local `z`, unless it is too close to the house.
pub open spec fn tree_candidate_of(
    th: u32,
    heights: Seq<i32>,
    house: Option<(i32, i32)>,
) -> Option<(i32, i32, i32)> {
    if near_house(tree_x(th), tree_z(th), house) {
        None
    } else {
        Some((tree_x(th) as i32, ground_at(heights, tree_x(th), tree_z(th)) as i32, tree_z(th) as i32))
    }
}

/// Picks the spot of the tree for hash `th`, keeping clear of the house.
pub fn tree_candidate(th: u32, heights: &[i32], house: Option<(i32, i32)>) -> (spot: Option<
    (i32, i32, i32),
>)
    requires
        heights@.len() >= 1024,
    ensures
        spot == tree_candidate_of(th, heights@, house),
        ({
            let tx = (th % 22) as int + 5;
            let tz = ((th >> 8u32) % 22) as int + 5;
            let near = match house {
                Some((hx, hz)) => (tx - hx) * (tx - hx) + (tz - hz) * (tz - hz) < 100,
                None => false,
            };
            &&& spot is Some <==> !near
            &&& spot matches Some((x, g, z)) ==> x == tx && z == tz && g == heights@[tx + 32 * tz]
        }),
        spot matches Some((tx, _g, tz)) ==> !near_house(tx as int, tz as int, house),
{
    let (tx, tz) = tree_spot(th);
    if let Some((hx, hz)) = house {
        let ddx = (tx as i128) - (hx as i128);
        let ddz = (tz as i128) - (hz as i128);
        assert(ddx * ddx <= 0x1_0000_0000_0000_0000) by (nonlinear_arith)
            requires
                -0x1_0000_0000 <= ddx <= 0x1_0000_0000,
        ;
        assert(ddz * ddz <= 0x1_0000_0000_0000_0000) by (nonlinear_arith)
            requires
                -0x1_0000_0000 <= ddz <= 0x1_0000_0000,
        ;
        assert(0 <= ddx * ddx && 0 <= ddz * ddz) by (nonlinear_arith);
        if ddx * ddx + ddz * ddz < 100 {
            return None;
        }
    }
    let ground = heights[tx as usize + 32 * tz as usize];
    Some((tx, ground, tz))
}

/// Climate verdicts at a tree spot.
#[derive(Clone, Copy)]
pub struct TreeClimate {
    /// Temperature below 0.34.
    pub cold: bool,
    /// Humidity below 0.18.
    pub parched: bool,
    /// Temperature above 0.82 with humidity below 0.38.
    pub hot_dry: bool,
    /// Local clearing noise above 0.82.
    pub clearing: bool,
}

/// A tree may grow on ground at height `ground` with slope `slope`: not too
/// steep, below the tree line (lower where it is cold), not too dry, not hot
/// and dry, not in a clearing.
pub open spec fn tree_site_allowed(slope: u32, ground: int, climate: TreeClimate) -> bool {
    !(slope > 3 || ground > 54 || (ground > 38 && climate.cold) || climate.parched
        || climate.hot_dry || climate.clearing)
}

/// Decides whether a tree may grow at a spot.
pub fn tree_site_ok(slope: u32, ground: i32, climate: TreeClimate) -> (ok: bool)
    ensures
        ok == tree_site_allowed(slope, ground as int, climate),
        ok == (slope <= 3 && ground <= 54 && !(ground > 38 && climate.cold) && !climate.parched
            && !climate.hot_dry && !climate.clearing),
{
    let too_steep = slope > 3;
    let too_high = ground > 54 || (ground > 38 && climate.cold);
    !(too_steep || too_high || climate.parched || climate.hot_dry || climate.clearing)
}

/// Grows the tree of hash `th` at local `(tx, tz)` on ground at height
/// `ground` when the site allows a tree and the ground block is grass.
pub fn grow_tree(
    s0: &mut [u32],
    s1: &mut [u32],
    s2: &mut [u32],
    ids: GenBlockIds,
    tx: i32,
    ground: i32,
    tz: i32,
    th: u32,
    slope: u32,
    climate: TreeClimate,
) -> (grew: bool)
    requires
        tree_site_allowed(slope, ground as int, climate) ==> {
            &&& sections_ok(old(s0)@, old(s1)@, old(s2)@)
            &&& i32::MIN + 2 <= tx <= i32::MAX - 2
            &&& i32::MIN + 2 <= tz <= i32::MAX - 2
        },
    ensures
        grew == (tree_site_allowed(slope, ground as int, climate) && cell(
            old(s0)@,
            old(s1)@,
            old(s2)@,
            tx as int,
            ground as int,
            tz as int,
        ) == ids.grass),
        tails_kept(old(s0)@, old(s1)@, old(s2)@, final(s0)@, final(s1)@, final(s2)@),
        forall|px: int, py: int, pz: int|
            in_column(px, py, pz) ==> #[trigger] cell(final(s0)@, final(s1)@, final(s2)@, px, py, pz)
                == if grew {
                tree_block(
                    cell(old(s0)@, old(s1)@, old(s2)@, px, py, pz),
                    ids,
                    tx as int,
                    ground + 1,
                    tz as int,
                    trunk_height(th),
                    px,
                    py,
                    pz,
                )
            } else {
                cell(old(s0)@, old(s1)@, old(s2)@, px, py, pz)
            },
{
    if !tree_site_ok(slope, ground, climate) {
        return false;
    }
    if get_world(s0, s1, s2, tx, ground, tz) != ids.grass {
        return false;
    }
    place_tree(s0, s1, s2, ids, tx, ground + 1, tz, th);
    true
}

} // verus!
