//! One whole generated column, from precomputed samples to emitted runs.
//!
//! The terrain is filled column by column up to the surface, leaving cave
//! cells open; at most one house is built; the planned trees grow in order;
//! the result is compressed into vertical runs.

use vstd::prelude::*;
use crate::caves::{
    cheese_band, hall_band, tunnel_band, is_cave, is_cave_hall, is_cheese_cave,
};
use crate::geology::{
    SurfaceContext, SurfaceCues, at_height, fill_terrain_column, in_palette, material_of,
};
use crate::placement::{
    TreeClimate, ground_at, grow_tree, house_site_of, settle, tree_candidate, tree_candidate_of,
    tree_site_allowed, wants_house,
};
use crate::runs::{
    VerticalRun, covered, run_covers, run_ok_in, runs_encode_in, vertical_runs,
    lemma_runs_encode_same_column,
};
use crate::structures::{
    house_block, house_depth, house_width, tree_block, trunk_height, lemma_house_in_footprint,
    lemma_house_layout, lemma_tree_keeps_blocks,
};
use crate::world::{AIR, SECTION_LEN, GenBlockIds, cell, in_column};

verus! {

/// Cave noise verdicts at one cell.
#[derive(Clone, Copy)]
pub struct CaveNoise {
    /// Both tunnel noise fields are within 0.11 of zero.
    pub narrow: bool,
    /// Both tunnel noise fields are within 0.13 of zero.
    pub wide: bool,
    /// The pocket noise field exceeds 0.47.
    pub cheese_high: bool,
    /// The hall noise field exceeds 0.50.
    pub hall_high: bool,
}

/// A tree to try: its hash, and the slope and climate verdicts at its spot.
#[derive(Clone, Copy)]
pub struct TreePlan {
    pub th: u32,
    pub slope: u32,
    pub climate: TreeClimate,
}

/// Everything a column needs besides the block IDs. Per-column entries are
/// indexed by `x + 32 * z`; `cave_noise[i][y]` holds the verdicts at height `y`.
pub struct ColumnPlan {
    /// World coordinates of local cell `(0, 0)`.
    pub bx: i32,
    pub bz: i32,
    pub heights: Vec<i32>,
    pub slopes: Vec<u32>,
    pub mountains: Vec<bool>,
    pub cues: Vec<SurfaceCues>,
    pub cave_noise: Vec<Vec<CaveNoise>>,
    /// Hash that decides whether a house is wanted.
    pub house_roll: u32,
    /// The column centre is lowland.
    pub lowland: bool,
    /// Hash that places the house and picks its variant.
    pub house_hash: u32,
    pub trees: Vec<TreePlan>,
}

/// A plan covers all 32 × 32 columns, has noise verdicts up to every surface,
/// and its world coordinates stay within range.
pub open spec fn plan_ok(p: ColumnPlan) -> bool {
    &&& p.heights@.len() >= 1024
    &&& p.slopes@.len() >= 1024
    &&& p.mountains@.len() >= 1024
    &&& p.cues@.len() >= 1024
    &&& p.cave_noise@.len() >= 1024
    &&& forall|i: int| 0 <= i < 1024 ==> #[trigger] p.heights@[i] < p.cave_noise@[i]@.len()
    &&& p.bx <= i32::MAX - 31
    &&& p.bz <= i32::MAX - 31
}

/// Some cave mask opens the cell at height `wy` under a surface at `h`.
pub open spec fn cave_open(wy: int, h: int, n: CaveNoise) -> bool {
    ||| tunnel_band(wy, h) && (if wy < 8 {
        n.narrow
    } else {
        n.wide
    })
    ||| cheese_band(wy, h) && n.cheese_high
    ||| hall_band(wy, h) && n.hall_high
}

/// The surface context of local column `(x, z)`.
pub open spec fn column_context(p: ColumnPlan, x: int, z: int) -> SurfaceContext {
    SurfaceContext {
        wx: (p.bx + x) as i32,
        wz: (p.bz + z) as i32,
        y: 0,
        surface_h: p.heights@[x + 32 * z],
        slope: p.slopes@[x + 32 * z],
        is_mountain: p.mountains@[x + 32 * z],
    }
}

/// The terrain block at `(x, y, z)`: its material from the ground up to the
/// surface, air in cave cells and above the surface.
pub open spec fn terrain_cell(p: ColumnPlan, ids: GenBlockIds, x: int, y: int, z: int) -> u32 {
    let i = x + 32 * z;
    let h = p.heights@[i] as int;
    if in_column(x, y, z) && 0 <= y <= h && !cave_open(y, h, p.cave_noise@[i]@[y]) {
        material_of(at_height(column_context(p, x, z), y), p.cues@[i], ids)
    } else {
        AIR
    }
}

/// The house of the plan: its local `x`, floor height and local `z`, when one
/// is wanted and its site allows it.
pub open spec fn house_of(p: ColumnPlan) -> Option<(i32, i32, i32)> {
    if p.house_roll % 85 == 0 && p.lowland {
        house_site_of(p.house_hash, p.heights@)
    } else {
        None
    }
}

/// Local `(x, z)` of the house of the plan.
pub open spec fn house_spot(p: ColumnPlan) -> Option<(i32, i32)> {
    match house_of(p) {
        Some((x, _y, z)) => Some((x, z)),
        None => None,
    }
}

/// `(x, y, z)` lies in the box of the house of the plan, foundation to roof.
pub open spec fn in_house_box(p: ColumnPlan, x: int, y: int, z: int) -> bool {
    match house_of(p) {
        Some((hx, hy, hz)) => hx <= x < hx + house_width(p.house_hash) && hz <= z < hz
            + house_depth(p.house_hash) && hy - 1 <= y < hy + 5,
        None => false,
    }
}

/// The block at `(x, y, z)` after the terrain and the house.
pub open spec fn housed_cell(p: ColumnPlan, ids: GenBlockIds, x: int, y: int, z: int) -> u32 {
    match house_of(p) {
        Some((hx, hy, hz)) => house_block(
            terrain_cell(p, ids, x, y, z),
            ids,
            hx as int,
            hy as int,
            hz as int,
            p.house_hash,
            x,
            y,
            z,
        ),
        None => terrain_cell(p, ids, x, y, z),
    }
}

/// The block at `(x, y, z)` after the terrain, the house and the first `k`
/// planned trees; a tree grows when its spot is clear of the house, its site
/// allows a tree and the block under it is then grass.
pub open spec fn planted_cell(p: ColumnPlan, ids: GenBlockIds, k: int, x: int, y: int, z: int) -> u32
    decreases k,
{
    if !in_column(x, y, z) {
        AIR
    } else if k <= 0 {
        housed_cell(p, ids, x, y, z)
    } else {
        let prev = planted_cell(p, ids, k - 1, x, y, z);
        let t = p.trees@[k - 1];
        match tree_candidate_of(t.th, p.heights@, house_spot(p)) {
            Some((tx, g, tz)) => if tree_site_allowed(t.slope, g as int, t.climate) && planted_cell(
                p,
                ids,
                k - 1,
                tx as int,
                g as int,
                tz as int,
            ) == ids.grass {
                tree_block(prev, ids, tx as int, g + 1, tz as int, trunk_height(t.th), x, y, z)
            } else {
                prev
            },
            None => prev,
        }
    }
}

/// The finished block at `(x, y, z)`.
pub open spec fn final_cell(p: ColumnPlan, ids: GenBlockIds, x: int, y: int, z: int) -> u32 {
    planted_cell(p, ids, p.trees@.len() as int, x, y, z)
}

/// `id` is a block the generator may emit: a terrain material, a log, leaves,
/// or cobblestone when the plan has a house.
pub open spec fn emitted_block_ok(p: ColumnPlan, ids: GenBlockIds, id: u32) -> bool {
    ||| in_palette(id, ids)
    ||| id == ids.log
    ||| id == ids.leaves
    ||| (house_of(p) is Some && id == ids.cobblestone)
}

/// Every terrain material lies in the palette.
pub proof fn lemma_material_in_palette(ctx: SurfaceContext, cues: SurfaceCues, ids: GenBlockIds)
    ensures
        in_palette(material_of(ctx, cues, ids), ids),
{
}

/// The generator emits registry blocks only: terrain materials, logs and
/// leaves, and cobblestone only when the plan has a house.
pub proof fn lemma_emitted_blocks(p: ColumnPlan, ids: GenBlockIds, k: int, x: int, y: int, z: int)
    ensures
        planted_cell(p, ids, k, x, y, z) == AIR || emitted_block_ok(
            p,
            ids,
            planted_cell(p, ids, k, x, y, z),
        ),
    decreases k,
{
    if in_column(x, y, z) {
        if k <= 0 {
            let i = x + 32 * z;
            lemma_material_in_palette(at_height(column_context(p, x, z), y), p.cues@[i], ids);
        } else {
            lemma_emitted_blocks(p, ids, k - 1, x, y, z);
        }
    }
}

/// Trees never replace terrain: outside the house box, every terrain block
/// is still there after the trees grew.
pub proof fn lemma_trees_keep_terrain(
    p: ColumnPlan,
    ids: GenBlockIds,
    k: int,
    x: int,
    y: int,
    z: int,
)
    requires
        plan_ok(p),
        in_column(x, y, z),
        terrain_cell(p, ids, x, y, z) != AIR,
        !in_house_box(p, x, y, z),
    ensures
        planted_cell(p, ids, k, x, y, z) == terrain_cell(p, ids, x, y, z),
    decreases k,
{
    if k <= 0 {
        if let Some((hx, hy, hz)) = house_of(p) {
            lemma_house_in_footprint(
                terrain_cell(p, ids, x, y, z),
                ids,
                hx as int,
                hy as int,
                hz as int,
                p.house_hash,
                x,
                y,
                z,
            );
        }
    } else {
        lemma_trees_keep_terrain(p, ids, k - 1, x, y, z);
        let t = p.trees@[k - 1];
        if let Some((tx, g, tz)) = tree_candidate_of(t.th, p.heights@, house_spot(p)) {
            assert(g as int == ground_at(p.heights@, tx as int, tz as int));
            lemma_tree_keeps_blocks(
                terrain_cell(p, ids, x, y, z),
                ids,
                tx as int,
                g + 1,
                tz as int,
                trunk_height(t.th),
                x,
                y,
                z,
            );
        }
    }
}

/// Cells that the terrain leaves open, caves and the air above the surface,
/// hold only air or tree blocks outside the house box.
pub proof fn lemma_open_cells(p: ColumnPlan, ids: GenBlockIds, k: int, x: int, y: int, z: int)
    requires
        in_column(x, y, z),
        terrain_cell(p, ids, x, y, z) == AIR,
        !in_house_box(p, x, y, z),
    ensures
        planted_cell(p, ids, k, x, y, z) == AIR || planted_cell(p, ids, k, x, y, z) == ids.log
            || planted_cell(p, ids, k, x, y, z) == ids.leaves,
    decreases k,
{
    if k <= 0 {
        if let Some((hx, hy, hz)) = house_of(p) {
            lemma_house_in_footprint(
                terrain_cell(p, ids, x, y, z),
                ids,
                hx as int,
                hy as int,
                hz as int,
                p.house_hash,
                x,
                y,
                z,
            );
        }
    } else {
        lemma_open_cells(p, ids, k - 1, x, y, z);
    }
}

/// Cave cells are open: outside the house box they hold only air or tree blocks.
pub proof fn lemma_caves_stay_open(p: ColumnPlan, ids: GenBlockIds, k: int, x: int, y: int, z: int)
    requires
        in_column(x, y, z),
        cave_open(y, p.heights@[x + 32 * z] as int, p.cave_noise@[x + 32 * z]@[y]),
        !in_house_box(p, x, y, z),
    ensures
        planted_cell(p, ids, k, x, y, z) == AIR || planted_cell(p, ids, k, x, y, z) == ids.log
            || planted_cell(p, ids, k, x, y, z) == ids.leaves,
{
    lemma_open_cells(p, ids, k, x, y, z);
}

/// The bottom of every column with ground keeps its terrain material: caves
/// never open there, and neither the house nor the trees reach it.
pub proof fn lemma_bottom_kept(p: ColumnPlan, ids: GenBlockIds, k: int, x: int, z: int)
    requires
        plan_ok(p),
        0 <= x < 32,
        0 <= z < 32,
        p.heights@[x + 32 * z] >= 0,
        material_of(at_height(column_context(p, x, z), 0), p.cues@[x + 32 * z], ids) != AIR,
    ensures
        planted_cell(p, ids, k, x, 0, z) == material_of(
            at_height(column_context(p, x, z), 0),
            p.cues@[x + 32 * z],
            ids,
        ),
    decreases k,
{
    assert(terrain_cell(p, ids, x, 0, z) == material_of(
        at_height(column_context(p, x, z), 0),
        p.cues@[x + 32 * z],
        ids,
    ));
    if k <= 0 {
        if let Some((hx, hy, hz)) = house_of(p) {
            lemma_house_in_footprint(
                terrain_cell(p, ids, x, 0, z),
                ids,
                hx as int,
                hy as int,
                hz as int,
                p.house_hash,
                x,
                0,
                z,
            );
        }
    } else {
        lemma_bottom_kept(p, ids, k - 1, x, z);
        let t = p.trees@[k - 1];
        if let Some((tx, g, tz)) = tree_candidate_of(t.th, p.heights@, house_spot(p)) {
            assert(g as int == ground_at(p.heights@, tx as int, tz as int));
            lemma_tree_keeps_blocks(
                planted_cell(p, ids, k - 1, x, 0, z),
                ids,
                tx as int,
                g + 1,
                tz as int,
                trunk_height(t.th),
                x,
                0,
                z,
            );
        }
    }
}

/// The cave masks of one column up to its surface at height `h`.
fn cave_mask(noise: &Vec<CaveNoise>, h: i32) -> (open: Vec<bool>)
    requires
        h < noise@.len(),
    ensures
        open@.len() == if h >= 0 {
            h + 1
        } else {
            0
        },
        forall|y: int| 0 <= y < open@.len() ==> #[trigger] open@[y] == cave_open(y, h as int, noise@[y]),
{
    let mut open: Vec<bool> = Vec::new();
    let mut y: i64 = 0;
    while y <= h as i64
        invariant
            0 <= y,
            y <= h + 1 || (y == 0 && h < 0),
            h < noise@.len(),
            open@.len() == y,
            forall|j: int| 0 <= j < y ==> #[trigger] open@[j] == cave_open(j, h as int, noise@[j]),
        decreases h - y + 1,
    {
        let wy = y as i32;
        let n = noise[wy as usize];
        let here = is_cave(wy, h, n.narrow, n.wide) || is_cheese_cave(wy, h, n.cheese_high)
            || is_cave_hall(wy, h, n.hall_high);
        open.push(here);
        y = y + 1;
    }
    open
}

/// Generates the column of the plan with the given block IDs and returns its
/// vertical runs.
pub fn generate_column(plan: &ColumnPlan, ids: GenBlockIds) -> (runs: Vec<VerticalRun>)
    requires
        plan_ok(*plan),
    ensures
        runs_encode_in(|x: int, y: int, z: int| final_cell(*plan, ids, x, y, z), runs@),
        forall|i: int| 0 <= i < runs@.len() ==> emitted_block_ok(*plan, ids, #[trigger] runs@[i].id),
{
    let ghost p = *plan;
    let mut s0: Vec<u32> = vec![AIR; SECTION_LEN];
    let mut s1: Vec<u32> = vec![AIR; SECTION_LEN];
    let mut s2: Vec<u32> = vec![AIR; SECTION_LEN];
    assert(s0@.len() == 32768 && s1@.len() == 32768 && s2@.len() == 32768);
    assert forall|px: int, py: int, pz: int| in_column(px, py, pz) implies #[trigger] cell(
        s0@,
        s1@,
        s2@,
        px,
        py,
        pz,
    ) == AIR by {
        if py < 32 {
            assert(s0@[px + 32 * (py + 32 * pz)] == AIR);
        } else if py < 64 {
            assert(s1@[px + 32 * (py - 32 + 32 * pz)] == AIR);
        } else {
            assert(s2@[px + 32 * (py - 64 + 32 * pz)] == AIR);
        }
    }
    let mut z: usize = 0;
    while z < 32
        invariant
            0 <= z <= 32,
            p == *plan,
            plan_ok(p),
            s0@.len() == 32768 && s1@.len() == 32768 && s2@.len() == 32768,
            forall|px: int, py: int, pz: int|
                in_column(px, py, pz) ==> #[trigger] cell(s0@, s1@, s2@, px, py, pz) == if pz < z {
                    terrain_cell(p, ids, px, py, pz)
                } else {
                    AIR
                },
        decreases 32 - z,
    {
        let mut x: usize = 0;
        while x < 32
            invariant
                0 <= z < 32,
                0 <= x <= 32,
                p == *plan,
                plan_ok(p),
                s0@.len() == 32768 && s1@.len() == 32768 && s2@.len() == 32768,
                forall|px: int, py: int, pz: int|
                    in_column(px, py, pz) ==> #[trigger] cell(s0@, s1@, s2@, px, py, pz) == if pz < z
                        || (pz == z && px < x) {
                        terrain_cell(p, ids, px, py, pz)
                    } else {
                        AIR
                    },
            decreases 32 - x,
        {
            let i = x + 32 * z;
            let h = plan.heights[i];
            let open = cave_mask(&plan.cave_noise[i], h);
            let ctx = SurfaceContext {
                wx: plan.bx + x as i32,
                wz: plan.bz + z as i32,
                y: 0,
                surface_h: h,
                slope: plan.slopes[i],
                is_mountain: plan.mountains[i],
            };
            assert(ctx == column_context(p, x as int, z as int));
            let ghost (o0, o1, o2) = (s0@, s1@, s2@);
            fill_terrain_column(
                s0.as_mut_slice(),
                s1.as_mut_slice(),
                s2.as_mut_slice(),
                ids,
                x as i32,
                z as i32,
                ctx,
                plan.cues[i],
                open.as_slice(),
            );
            assert forall|px: int, py: int, pz: int| in_column(px, py, pz) implies #[trigger] cell(
                s0@,
                s1@,
                s2@,
                px,
                py,
                pz,
            ) == if pz < z || (pz == z && px < x + 1) {
                terrain_cell(p, ids, px, py, pz)
            } else {
                AIR
            } by {
                assert(cell(o0, o1, o2, px, py, pz) == if pz < z || (pz == z && px < x) {
                    terrain_cell(p, ids, px, py, pz)
                } else {
                    AIR
                });
                if px == x && pz == z && 0 <= py <= h {
                    assert(open@[py] == cave_open(py, h as int, p.cave_noise@[i as int]@[py]));
                }
            }
            x = x + 1;
        }
        z = z + 1;
    }
    let house = if wants_house(plan.house_roll, plan.lowland) {
        settle(
            s0.as_mut_slice(),
            s1.as_mut_slice(),
            s2.as_mut_slice(),
            ids,
            plan.house_hash,
            plan.heights.as_slice(),
        )
    } else {
        None
    };
    assert(house == house_spot(p));
    assert forall|px: int, py: int, pz: int| in_column(px, py, pz) implies #[trigger] cell(
        s0@,
        s1@,
        s2@,
        px,
        py,
        pz,
    ) == planted_cell(p, ids, 0, px, py, pz) by {}
    let mut k: usize = 0;
    while k < plan.trees.len()
        invariant
            0 <= k <= p.trees@.len(),
            p == *plan,
            plan_ok(p),
            house == house_spot(p),
            s0@.len() == 32768 && s1@.len() == 32768 && s2@.len() == 32768,
            forall|px: int, py: int, pz: int|
                in_column(px, py, pz) ==> #[trigger] cell(s0@, s1@, s2@, px, py, pz)
                    == planted_cell(p, ids, k as int, px, py, pz),
        decreases p.trees@.len() - k,
    {
        let t = plan.trees[k];
        let ghost (o0, o1, o2) = (s0@, s1@, s2@);
        match tree_candidate(t.th, plan.heights.as_slice(), house) {
            Some((tx, g, tz)) => {
                assert(cell(o0, o1, o2, tx as int, g as int, tz as int) == planted_cell(
                    p,
                    ids,
                    k as int,
                    tx as int,
                    g as int,
                    tz as int,
                ));
                grow_tree(
                    s0.as_mut_slice(),
                    s1.as_mut_slice(),
                    s2.as_mut_slice(),
                    ids,
                    tx,
                    g,
                    tz,
                    t.th,
                    t.slope,
                    t.climate,
                );
            },
            None => {},
        }
        assert forall|px: int, py: int, pz: int| in_column(px, py, pz) implies #[trigger] cell(
            s0@,
            s1@,
            s2@,
            px,
            py,
            pz,
        ) == planted_cell(p, ids, k + 1, px, py, pz) by {
            assert(cell(o0, o1, o2, px, py, pz) == planted_cell(p, ids, k as int, px, py, pz));
        }
        k = k + 1;
    }
    let runs = vertical_runs(s0.as_slice(), s1.as_slice(), s2.as_slice());
    let ghost col = |x: int, y: int, z: int| final_cell(p, ids, x, y, z);
    proof {
        assert forall|x: int, y: int, z: int| in_column(x, y, z) implies #[trigger] cell(
            s0@,
            s1@,
            s2@,
            x,
            y,
            z,
        ) == col(x, y, z) by {}
        lemma_runs_encode_same_column(s0@, s1@, s2@, col, runs@);
        assert forall|i: int| 0 <= i < runs@.len() implies emitted_block_ok(
            p,
            ids,
            #[trigger] runs@[i].id,
        ) by {
            let r = runs@[i];
            assert(col(r.x as int, r.y_start as int, r.z as int) == r.id);
            lemma_emitted_blocks(p, ids, p.trees@.len() as int, r.x as int, r.y_start as int, r.z as int);
        }
    }
    runs
}

/// The top terrain block of a column is never replaced by a tree: trunks start
/// above the ground of their own column, and leaves only fill air.
proof fn lemma_ground_kept(p: ColumnPlan, ids: GenBlockIds, k: int, x: int, z: int)
    requires
        plan_ok(p),
        in_column(x, p.heights@[x + 32 * z] as int, z),
        housed_cell(p, ids, x, p.heights@[x + 32 * z] as int, z) != AIR,
    ensures
        planted_cell(p, ids, k, x, p.heights@[x + 32 * z] as int, z) == housed_cell(
            p,
            ids,
            x,
            p.heights@[x + 32 * z] as int,
            z,
        ),
    decreases k,
{
    let g = p.heights@[x + 32 * z] as int;
    if k > 0 {
        lemma_ground_kept(p, ids, k - 1, x, z);
        let t = p.trees@[k - 1];
        if let Some((tx, tg, tz)) = tree_candidate_of(t.th, p.heights@, house_spot(p)) {
            assert(tg as int == ground_at(p.heights@, tx as int, tz as int));
            lemma_tree_keeps_blocks(
                planted_cell(p, ids, k - 1, x, g, z),
                ids,
                tx as int,
                tg + 1,
                tz as int,
                trunk_height(t.th),
                x,
                g,
                z,
            );
        }
    }
}

/// A log stays a log while later trees grow.
proof fn lemma_log_kept(p: ColumnPlan, ids: GenBlockIds, j0: int, j: int, x: int, y: int, z: int)
    requires
        0 <= j0 <= j,
        ids.log != AIR,
        planted_cell(p, ids, j0, x, y, z) == ids.log,
    ensures
        planted_cell(p, ids, j, x, y, z) == ids.log,
    decreases j - j0,
{
    if j > j0 {
        lemma_log_kept(p, ids, j0, j - 1, x, y, z);
        let t = p.trees@[j - 1];
        if let Some((tx, tg, tz)) = tree_candidate_of(t.th, p.heights@, house_spot(p)) {
            if !(x == tx && z == tz && tg + 1 <= y < tg + 1 + trunk_height(t.th)) {
                lemma_tree_keeps_blocks(
                    ids.log,
                    ids,
                    tx as int,
                    tg + 1,
                    tz as int,
                    trunk_height(t.th),
                    x,
                    y,
                    z,
                );
            }
        }
    }
}

/// Every planned tree whose spot is clear of the house, whose site allows a
/// tree and whose ground is grass after the terrain and the house grows: the
/// emitted runs hold a log right above its ground.
pub proof fn lemma_planned_trees_grow(
    p: ColumnPlan,
    ids: GenBlockIds,
    runs: Seq<VerticalRun>,
    k: int,
    tx: i32,
    g: i32,
    tz: i32,
)
    requires
        plan_ok(p),
        runs_encode_in(|x: int, y: int, z: int| final_cell(p, ids, x, y, z), runs),
        ids.grass != AIR,
        ids.log != AIR,
        0 <= k < p.trees@.len(),
        tree_candidate_of(p.trees@[k].th, p.heights@, house_spot(p)) == Some((tx, g, tz)),
        tree_site_allowed(p.trees@[k].slope, g as int, p.trees@[k].climate),
        in_column(tx as int, g as int, tz as int),
        housed_cell(p, ids, tx as int, g as int, tz as int) == ids.grass,
    ensures
        exists|i: int|
            0 <= i < runs.len() && runs[i].id == ids.log && #[trigger] run_covers(
                runs[i],
                tx as int,
                g + 1,
                tz as int,
            ),
{
    assert(g as int == ground_at(p.heights@, tx as int, tz as int));
    lemma_ground_kept(p, ids, k, tx as int, tz as int);
    assert(planted_cell(p, ids, k, tx as int, g as int, tz as int) == ids.grass);
    assert(planted_cell(p, ids, k + 1, tx as int, g + 1, tz as int) == ids.log);
    lemma_log_kept(p, ids, k + 1, p.trees@.len() as int, tx as int, g + 1, tz as int);
    let col = |x: int, y: int, z: int| final_cell(p, ids, x, y, z);
    assert(col(tx as int, g + 1, tz as int) == ids.log);
    assert(covered(runs, tx as int, g + 1, tz as int));
    let i = choose|i: int| 0 <= i < runs.len() && #[trigger] run_covers(runs[i], tx as int, g + 1, tz as int);
    assert(run_ok_in(col, runs[i]));
}

/// Cave cells are carved in the emitted column: a cell in the tunnel band with
/// its tunnel noise near zero (the narrow test below height 8, the wide one
/// above), in the pocket band with high pocket noise, or in the hall band with
/// high hall noise holds no terrain block; outside the house box only a tree
/// can put a log or leaves there.
pub proof fn lemma_caves_carved(
    p: ColumnPlan,
    ids: GenBlockIds,
    runs: Seq<VerticalRun>,
    x: int,
    y: int,
    z: int,
)
    requires
        plan_ok(p),
        runs_encode_in(|x: int, y: int, z: int| final_cell(p, ids, x, y, z), runs),
        in_column(x, y, z),
        !in_house_box(p, x, y, z),
    ensures
        ({
            let h = p.heights@[x + 32 * z] as int;
            let n = p.cave_noise@[x + 32 * z]@[y];
            let carved = (tunnel_band(y, h) && y < 8 && n.narrow) || (tunnel_band(y, h) && y >= 8
                && n.wide) || (cheese_band(y, h) && n.cheese_high) || (hall_band(y, h)
                && n.hall_high);
            carved ==> forall|i: int|
                0 <= i < runs.len() && #[trigger] run_covers(runs[i], x, y, z) ==> runs[i].id
                    == ids.log || runs[i].id == ids.leaves
        }),
{
    let h = p.heights@[x + 32 * z] as int;
    let n = p.cave_noise@[x + 32 * z]@[y];
    let col = |x: int, y: int, z: int| final_cell(p, ids, x, y, z);
    if (tunnel_band(y, h) && y < 8 && n.narrow) || (tunnel_band(y, h) && y >= 8 && n.wide) || (
    cheese_band(y, h) && n.cheese_high) || (hall_band(y, h) && n.hall_high) {
        lemma_open_cells(p, ids, p.trees@.len() as int, x, y, z);
        assert forall|i: int|
            0 <= i < runs.len() && #[trigger] run_covers(runs[i], x, y, z) implies runs[i].id
            == ids.log || runs[i].id == ids.leaves by {
            assert(run_ok_in(col, runs[i]));
            assert(col(x, y, z) == runs[i].id);
        }
    }
}

/// Solid ground is emitted: a cell from the bottom up to the surface that no
/// cave mask opens, outside the house box, is emitted with its terrain material.
pub proof fn lemma_solid_ground_emitted(
    p: ColumnPlan,
    ids: GenBlockIds,
    runs: Seq<VerticalRun>,
    x: int,
    y: int,
    z: int,
)
    requires
        plan_ok(p),
        runs_encode_in(|x: int, y: int, z: int| final_cell(p, ids, x, y, z), runs),
        in_column(x, y, z),
        !in_house_box(p, x, y, z),
        0 <= y <= p.heights@[x + 32 * z],
        !(tunnel_band(y, p.heights@[x + 32 * z] as int) && (if y < 8 {
            p.cave_noise@[x + 32 * z]@[y].narrow
        } else {
            p.cave_noise@[x + 32 * z]@[y].wide
        })),
        !(cheese_band(y, p.heights@[x + 32 * z] as int) && p.cave_noise@[x + 32 * z]@[y].cheese_high),
        !(hall_band(y, p.heights@[x + 32 * z] as int) && p.cave_noise@[x + 32 * z]@[y].hall_high),
        material_of(at_height(column_context(p, x, z), y), p.cues@[x + 32 * z], ids) != AIR,
    ensures
        exists|i: int|
            0 <= i < runs.len() && runs[i].id == material_of(
                at_height(column_context(p, x, z), y),
                p.cues@[x + 32 * z],
                ids,
            ) && #[trigger] run_covers(runs[i], x, y, z),
{
    let col = |x: int, y: int, z: int| final_cell(p, ids, x, y, z);
    assert(terrain_cell(p, ids, x, y, z) == material_of(
        at_height(column_context(p, x, z), y),
        p.cues@[x + 32 * z],
        ids,
    ));
    lemma_trees_keep_terrain(p, ids, p.trees@.len() as int, x, y, z);
    assert(col(x, y, z) != AIR);
    assert(covered(runs, x, y, z));
    let i = choose|i: int| 0 <= i < runs.len() && #[trigger] run_covers(runs[i], x, y, z);
    assert(run_ok_in(col, runs[i]));
}

/// The corner of the house roof above its site stays cobblestone while trees
/// grow: no tree stands on the house spot.
proof fn lemma_roof_corner_kept(p: ColumnPlan, ids: GenBlockIds, k: int, hx: int, ry: int, hz: int)
    requires
        house_spot(p) == Some((hx as i32, hz as i32)),
        in_column(hx, ry, hz),
        ids.cobblestone != AIR,
        planted_cell(p, ids, 0, hx, ry, hz) == ids.cobblestone,
    ensures
        planted_cell(p, ids, k, hx, ry, hz) == ids.cobblestone,
    decreases k,
{
    if k > 0 {
        lemma_roof_corner_kept(p, ids, k - 1, hx, ry, hz);
        let t = p.trees@[k - 1];
        if let Some((tx, tg, tz)) = tree_candidate_of(t.th, p.heights@, house_spot(p)) {
            lemma_tree_keeps_blocks(
                ids.cobblestone,
                ids,
                tx as int,
                tg + 1,
                tz as int,
                trunk_height(t.th),
                hx,
                ry,
                hz,
            );
        }
    }
}

/// A house is built when the house roll is a multiple of 85, the column is
/// lowland, and the ground at the site picked by the house hash, local
/// `(hash % 14 + 5, (hash >> 8) % 14 + 5)`, is at height `g` with
/// `1 <= g` and `g + 7 < 96`: the emitted runs hold the cobblestone roof
/// corner above the site, at height `g + 5`.
pub proof fn lemma_house_built(p: ColumnPlan, ids: GenBlockIds, runs: Seq<VerticalRun>)
    requires
        plan_ok(p),
        runs_encode_in(|x: int, y: int, z: int| final_cell(p, ids, x, y, z), runs),
        ids.cobblestone != AIR,
        p.house_roll % 85 == 0,
        p.lowland,
        1 <= p.heights@[((p.house_hash % 14) as int + 5) + 32 * (((p.house_hash >> 8u32) % 14) as int
            + 5)],
        p.heights@[((p.house_hash % 14) as int + 5) + 32 * (((p.house_hash >> 8u32) % 14) as int
            + 5)] + 7 < 96,
    ensures
        ({
            let hx = (p.house_hash % 14) as int + 5;
            let hz = ((p.house_hash >> 8u32) % 14) as int + 5;
            let g = p.heights@[hx + 32 * hz] as int;
            exists|i: int|
                0 <= i < runs.len() && runs[i].id == ids.cobblestone && #[trigger] run_covers(
                    runs[i],
                    hx,
                    g + 5,
                    hz,
                )
        }),
{
    let hh = p.house_hash;
    let hx = (hh % 14) as int + 5;
    let hz = ((hh >> 8u32) % 14) as int + 5;
    let g = p.heights@[hx + 32 * hz] as int;
    assert(house_of(p) == Some((hx as i32, (g + 1) as i32, hz as i32)));
    lemma_house_layout(
        terrain_cell(p, ids, hx, g + 5, hz),
        ids,
        hx,
        g + 1,
        hz,
        hh,
        0,
        4,
        0,
    );
    assert(planted_cell(p, ids, 0, hx, g + 5, hz) == ids.cobblestone);
    lemma_roof_corner_kept(p, ids, p.trees@.len() as int, hx, g + 5, hz);
    let col = |x: int, y: int, z: int| final_cell(p, ids, x, y, z);
    assert(col(hx, g + 5, hz) == ids.cobblestone);
    assert(covered(runs, hx, g + 5, hz));
    let i = choose|i: int| 0 <= i < runs.len() && #[trigger] run_covers(runs[i], hx, g + 5, hz);
    assert(run_ok_in(col, runs[i]));
}

} // verus!
