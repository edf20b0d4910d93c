//! Compression of a finished column into vertical runs of equal blocks.
//!
//! Every maximal vertical stretch of one non-air block becomes one run; a run
//! of length one is a single block, a longer one a filled box with half-open
//! height bounds `[y_start, y_end)`.

use vstd::prelude::*;
use crate::world::{AIR, DIM, WORLD_H, cell, get_world, in_column, sections_ok};

verus! {

/// A vertical stretch `y_start <= y < y_end` of block `id` in local column `(x, z)`.
#[derive(Clone, Copy, Debug, PartialEq, Eq, Structural)]
pub struct VerticalRun {
    pub x: u8,
    pub z: u8,
    pub y_start: i32,
    pub y_end: i32,
    pub id: u32,
}

/// `r` is a maximal stretch of one non-air block of the column.
pub open spec fn run_ok(s0: Seq<u32>, s1: Seq<u32>, s2: Seq<u32>, r: VerticalRun) -> bool {
    &&& r.x < 32
    &&& r.z < 32
    &&& 0 <= r.y_start < r.y_end <= 96
    &&& r.id != AIR
    &&& forall|y: int|
        r.y_start <= y < r.y_end ==> #[trigger] cell(s0, s1, s2, r.x as int, y, r.z as int)
            == r.id
    &&& (r.y_start == 0 || cell(s0, s1, s2, r.x as int, r.y_start - 1, r.z as int) != r.id)
    &&& (r.y_end == 96 || cell(s0, s1, s2, r.x as int, r.y_end as int, r.z as int) != r.id)
}

/// `r` contains the cell `(x, y, z)`.
pub open spec fn run_covers(r: VerticalRun, x: int, y: int, z: int) -> bool {
    r.x == x && r.z == z && r.y_start <= y < r.y_end
}

/// Position of the first cell of `r` in emission order: columns by `z`, then
/// `x`, cells bottom-up.
pub open spec fn run_key(r: VerticalRun) -> int {
    (r.z * 32 + r.x) * 96 + r.y_start
}

/// Some run of `runs` contains the cell `(x, y, z)`.
pub open spec fn covered(runs: Seq<VerticalRun>, x: int, y: int, z: int) -> bool {
    exists|i: int| 0 <= i < runs.len() && #[trigger] run_covers(runs[i], x, y, z)
}

/// `runs` lists, in emission order, the maximal runs of the column, and together
/// they hold every non-air block.
pub open spec fn runs_encode(
    s0: Seq<u32>,
    s1: Seq<u32>,
    s2: Seq<u32>,
    runs: Seq<VerticalRun>,
) -> bool {
    &&& forall|i: int| 0 <= i < runs.len() ==> run_ok(s0, s1, s2, #[trigger] runs[i])
    &&& forall|i: int, j: int|
        0 <= i < j < runs.len() ==> run_key(#[trigger] runs[i]) < run_key(#[trigger] runs[j])
    &&& forall|x: int, y: int, z: int|
        in_column(x, y, z) && #[trigger] cell(s0, s1, s2, x, y, z) != AIR ==> covered(
            runs,
            x,
            y,
            z,
        )
}

/// Compresses the column into its vertical runs, column by column (`z`, then
/// `x`), bottom-up.
pub fn vertical_runs(s0: &[u32], s1: &[u32], s2: &[u32]) -> (runs: Vec<VerticalRun>)
    requires
        sections_ok(s0@, s1@, s2@),
    ensures
        runs_encode(s0@, s1@, s2@, runs@),
{
    let ghost (c0, c1, c2) = (s0@, s1@, s2@);
    let mut runs: Vec<VerticalRun> = Vec::new();
    let mut z: usize = 0;
    while z < DIM
        invariant
            0 <= z <= 32,
            sections_ok(c0, c1, c2),
            c0 == s0@,
            c1 == s1@,
            c2 == s2@,
            forall|i: int| 0 <= i < runs@.len() ==> run_ok(c0, c1, c2, #[trigger] runs@[i]),
            forall|i: int, j: int|
                0 <= i < j < runs@.len() ==> run_key(#[trigger] runs@[i]) < run_key(
                    #[trigger] runs@[j],
                ),
            forall|i: int| 0 <= i < runs@.len() ==> run_key(#[trigger] runs@[i]) < z * 32 * 96,
            forall|px: int, py: int, pz: int|
                in_column(px, py, pz) && pz < z && #[trigger] cell(c0, c1, c2, px, py, pz) != AIR
                    ==> covered(runs@, px, py, pz),
        decreases 32 - z,
    {
        let mut x: usize = 0;
        while x < DIM
            invariant
                0 <= z < 32,
                0 <= x <= 32,
                sections_ok(c0, c1, c2),
                c0 == s0@,
                c1 == s1@,
                c2 == s2@,
                forall|i: int| 0 <= i < runs@.len() ==> run_ok(c0, c1, c2, #[trigger] runs@[i]),
                forall|i: int, j: int|
                    0 <= i < j < runs@.len() ==> run_key(#[trigger] runs@[i]) < run_key(
                        #[trigger] runs@[j],
                    ),
                forall|i: int|
                    0 <= i < runs@.len() ==> run_key(#[trigger] runs@[i]) < (z * 32 + x) * 96,
                forall|px: int, py: int, pz: int|
                    in_column(px, py, pz) && (pz < z || (pz == z && px < x)) && #[trigger] cell(
                        c0,
                        c1,
                        c2,
                        px,
                        py,
                        pz,
                    ) != AIR ==> covered(runs@, px, py, pz),
            decreases 32 - x,
        {
            let mut y: i32 = 0;
            while y < WORLD_H
                invariant
                    0 <= z < 32,
                    0 <= x < 32,
                    0 <= y <= 96,
                    sections_ok(c0, c1, c2),
                    c0 == s0@,
                    c1 == s1@,
                    c2 == s2@,
                    forall|i: int|
                        0 <= i < runs@.len() ==> run_ok(c0, c1, c2, #[trigger] runs@[i]),
                    forall|i: int, j: int|
                        0 <= i < j < runs@.len() ==> run_key(#[trigger] runs@[i]) < run_key(
                            #[trigger] runs@[j],
                        ),
                    forall|i: int|
                        0 <= i < runs@.len() ==> run_key(#[trigger] runs@[i]) < (z * 32 + x) * 96
                            + y,
                    0 < y < 96 ==> (cell(c0, c1, c2, x as int, y - 1, z as int) == AIR || cell(
                        c0,
                        c1,
                        c2,
                        x as int,
                        y - 1,
                        z as int,
                    ) != cell(c0, c1, c2, x as int, y as int, z as int)),
                    forall|px: int, py: int, pz: int|
                        in_column(px, py, pz) && (pz < z || (pz == z && px < x) || (pz == z && px
                            == x && py < y)) && #[trigger] cell(c0, c1, c2, px, py, pz) != AIR
                            ==> covered(runs@, px, py, pz),
                decreases 96 - y,
            {
                let ghost y_top = y;
                while y < WORLD_H && get_world(s0, s1, s2, x as i32, y, z as i32) == AIR
                    invariant
                        0 <= z < 32,
                        0 <= x < 32,
                        y_top <= y <= 96,
                        sections_ok(c0, c1, c2),
                        c0 == s0@,
                        c1 == s1@,
                        c2 == s2@,
                        forall|py: int|
                            y_top <= py < y ==> #[trigger] cell(c0, c1, c2, x as int, py, z as int)
                                == AIR,
                    decreases 96 - y,
                {
                    y = y + 1;
                }
                if y < WORLD_H {
                    let run_start = y;
                    let id = get_world(s0, s1, s2, x as i32, y, z as i32);
                    y = y + 1;
                    while y < WORLD_H && get_world(s0, s1, s2, x as i32, y, z as i32) == id
                        invariant
                            0 <= z < 32,
                            0 <= x < 32,
                            run_start < y <= 96,
                            sections_ok(c0, c1, c2),
                            c0 == s0@,
                            c1 == s1@,
                            c2 == s2@,
                            forall|py: int|
                                run_start <= py < y ==> #[trigger] cell(
                                    c0,
                                    c1,
                                    c2,
                                    x as int,
                                    py,
                                    z as int,
                                ) == id,
                        decreases 96 - y,
                    {
                        y = y + 1;
                    }
                    let run = VerticalRun {
                        x: x as u8,
                        z: z as u8,
                        y_start: run_start,
                        y_end: y,
                        id: id,
                    };
                    let ghost before = runs@;
                    runs.push(run);
                    proof {
                        assert(run_ok(c0, c1, c2, run));
                        assert forall|px: int, py: int, pz: int|
                            in_column(px, py, pz) && (pz < z || (pz == z && px < x) || (pz == z
                                && px == x && py < y)) && #[trigger] cell(c0, c1, c2, px, py, pz)
                                != AIR implies covered(runs@, px, py, pz) by {
                            if pz == z && px == x && run_start <= py {
                                assert(run_covers(runs@[before.len() as int], px, py, pz));
                            } else if pz == z && px == x && py >= y_top {
                                assert(cell(c0, c1, c2, x as int, py, z as int) == AIR);
                            } else {
                                let i = choose|i: int|
                                    0 <= i < before.len() && #[trigger] run_covers(
                                        before[i],
                                        px,
                                        py,
                                        pz,
                                    );
                                assert(run_covers(runs@[i], px, py, pz));
                            }
                        }
                    }
                }
            }
            x = x + 1;
        }
        z = z + 1;
    }
    runs
}

/// Writing the runs back reproduces the column: a cell lies in some run
/// exactly when it holds a block, and every run that contains it carries that block.
pub proof fn lemma_runs_reproduce_column(
    s0: Seq<u32>,
    s1: Seq<u32>,
    s2: Seq<u32>,
    runs: Seq<VerticalRun>,
    x: int,
    y: int,
    z: int,
)
    requires
        sections_ok(s0, s1, s2),
        runs_encode(s0, s1, s2, runs),
        in_column(x, y, z),
    ensures
        covered(runs, x, y, z) <==> cell(s0, s1, s2, x, y, z) != AIR,
        forall|i: int|
            0 <= i < runs.len() && #[trigger] run_covers(runs[i], x, y, z) ==> runs[i].id == cell(
                s0,
                s1,
                s2,
                x,
                y,
                z,
            ),
{
    assert forall|i: int|
        0 <= i < runs.len() && #[trigger] run_covers(runs[i], x, y, z) implies runs[i].id == cell(
        s0,
        s1,
        s2,
        x,
        y,
        z,
    ) by {
        assert(run_ok(s0, s1, s2, runs[i]));
    }
    if covered(runs, x, y, z) {
        let i = choose|i: int| 0 <= i < runs.len() && #[trigger] run_covers(runs[i], x, y, z);
        assert(run_ok(s0, s1, s2, runs[i]));
    }
}

/// No cell lies in two different runs.
pub proof fn lemma_runs_disjoint(
    s0: Seq<u32>,
    s1: Seq<u32>,
    s2: Seq<u32>,
    runs: Seq<VerticalRun>,
    i: int,
    j: int,
    x: int,
    y: int,
    z: int,
)
    requires
        sections_ok(s0, s1, s2),
        runs_encode(s0, s1, s2, runs),
        0 <= i < runs.len(),
        0 <= j < runs.len(),
        i != j,
    ensures
        !(run_covers(runs[i], x, y, z) && run_covers(runs[j], x, y, z)),
{
    if run_covers(runs[i], x, y, z) && run_covers(runs[j], x, y, z) {
        let (a, b) = if i < j { (i, j) } else { (j, i) };
        assert(run_key(runs[a]) < run_key(runs[b]));
        let ra = runs[a];
        let rb = runs[b];
        assert(run_ok(s0, s1, s2, ra));
        assert(run_ok(s0, s1, s2, rb));
        assert(cell(s0, s1, s2, x, y, z) == ra.id);
        assert(cell(s0, s1, s2, x, y, z) == rb.id);
        assert(cell(s0, s1, s2, rb.x as int, rb.y_start - 1, rb.z as int) == ra.id);
    }
}

/// One terrain write of the finished column: a single block, or a vertical
/// run filled over the half-open heights `[y_start, y_end)`.
#[derive(Clone, Copy, Debug, PartialEq, Eq, Structural)]
pub enum TerrainWrite {
    SetBlock { x: u8, y: i32, z: u8, id: u32 },
    FillRun { x: u8, z: u8, y_start: i32, y_end: i32, id: u32 },
}

/// The write that emits `r`: a single block for a run of one, a filled run otherwise.
pub open spec fn write_for(r: VerticalRun) -> TerrainWrite {
    if r.y_end - r.y_start == 1 {
        TerrainWrite::SetBlock { x: r.x, y: r.y_start, z: r.z, id: r.id }
    } else {
        TerrainWrite::FillRun { x: r.x, z: r.z, y_start: r.y_start, y_end: r.y_end, id: r.id }
    }
}

/// Chooses the write that emits one run.
pub fn run_write(r: VerticalRun) -> (w: TerrainWrite)
    ensures
        w == write_for(r),
        match w {
            TerrainWrite::SetBlock { x, y, z, id } => r.y_end - r.y_start == 1 && x == r.x && y
                == r.y_start && z == r.z && id == r.id,
            TerrainWrite::FillRun { x, z, y_start, y_end, id } => r.y_end - r.y_start != 1 && x
                == r.x && z == r.z && y_start == r.y_start && y_end == r.y_end && id == r.id,
        },
{
    if (r.y_end as i64) - (r.y_start as i64) == 1 {
        TerrainWrite::SetBlock { x: r.x, y: r.y_start, z: r.z, id: r.id }
    } else {
        TerrainWrite::FillRun { x: r.x, z: r.z, y_start: r.y_start, y_end: r.y_end, id: r.id }
    }
}

/// `r` is a maximal stretch of one non-air block of the column whose cells `col` gives.
pub open spec fn run_ok_in(col: spec_fn(int, int, int) -> u32, r: VerticalRun) -> bool {
    &&& r.x < 32
    &&& r.z < 32
    &&& 0 <= r.y_start < r.y_end <= 96
    &&& r.id != AIR
    &&& forall|y: int| r.y_start <= y < r.y_end ==> #[trigger] col(r.x as int, y, r.z as int) == r.id
    &&& (r.y_start == 0 || col(r.x as int, r.y_start - 1, r.z as int) != r.id)
    &&& (r.y_end == 96 || col(r.x as int, r.y_end as int, r.z as int) != r.id)
}

/// `runs` lists, in emission order, the maximal runs of the column whose
/// cells `col` gives, and together they hold every non-air block.
pub open spec fn runs_encode_in(col: spec_fn(int, int, int) -> u32, runs: Seq<VerticalRun>) -> bool {
    &&& forall|i: int| 0 <= i < runs.len() ==> run_ok_in(col, #[trigger] runs[i])
    &&& forall|i: int, j: int|
        0 <= i < j < runs.len() ==> run_key(#[trigger] runs[i]) < run_key(#[trigger] runs[j])
    &&& forall|x: int, y: int, z: int|
        in_column(x, y, z) && #[trigger] col(x, y, z) != AIR ==> covered(runs, x, y, z)
}

/// Runs of a column buffer are the runs of any column that agrees with it cell by cell.
pub proof fn lemma_runs_encode_same_column(
    s0: Seq<u32>,
    s1: Seq<u32>,
    s2: Seq<u32>,
    col: spec_fn(int, int, int) -> u32,
    runs: Seq<VerticalRun>,
)
    requires
        runs_encode(s0, s1, s2, runs),
        forall|x: int, y: int, z: int|
            in_column(x, y, z) ==> #[trigger] cell(s0, s1, s2, x, y, z) == col(x, y, z),
    ensures
        runs_encode_in(col, runs),
{
    assert forall|i: int| 0 <= i < runs.len() implies run_ok_in(col, #[trigger] runs[i]) by {
        let r = runs[i];
        assert(run_ok(s0, s1, s2, r));
        assert forall|y: int| r.y_start <= y < r.y_end implies #[trigger] col(
            r.x as int,
            y,
            r.z as int,
        ) == r.id by {
            assert(cell(s0, s1, s2, r.x as int, y, r.z as int) == r.id);
        }
        if r.y_start != 0 {
            assert(cell(s0, s1, s2, r.x as int, r.y_start - 1, r.z as int) != r.id);
        }
        if r.y_end != 96 {
            assert(cell(s0, s1, s2, r.x as int, r.y_end as int, r.z as int) != r.id);
        }
    }
    assert forall|x: int, y: int, z: int|
        in_column(x, y, z) && #[trigger] col(x, y, z) != AIR implies covered(runs, x, y, z) by {
        assert(cell(s0, s1, s2, x, y, z) == col(x, y, z));
    }
}

} // verus!
