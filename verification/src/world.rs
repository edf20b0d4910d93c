//! The local column buffer: three stacked 32³ sections (world heights 0..96).

use vstd::prelude::*;

verus! {

/// Edge length of one cubic section.
pub const DIM: usize = 32;

/// Edge length of one cubic section, as a signed coordinate.
pub const IDIM: i32 = 32;

/// Height of the generated column: three sections.
pub const WORLD_H: i32 = 96;

/// Runtime ID of an empty cell.
pub const AIR: u32 = 0;

/// Number of cells in one section.
pub const SECTION_LEN: usize = 32768;

/// Flat index of local `(x, y, z)` inside one section.
pub open spec fn section_index(x: int, y: int, z: int) -> int {
    x + 32 * (y + 32 * z)
}

/// `(x, y, z)` is a cell of the local column.
pub open spec fn in_column(x: int, y: int, z: int) -> bool {
    0 <= x < 32 && 0 <= z < 32 && 0 <= y < 96
}

/// Every section holds at least one full 32³ cube.
pub open spec fn sections_ok(s0: Seq<u32>, s1: Seq<u32>, s2: Seq<u32>) -> bool {
    s0.len() >= 32768 && s1.len() >= 32768 && s2.len() >= 32768
}

/// The block at `(x, y, z)` of the column made of sections `s0`, `s1`, `s2`;
/// cells outside the column read as air.
pub open spec fn cell(s0: Seq<u32>, s1: Seq<u32>, s2: Seq<u32>, x: int, y: int, z: int) -> u32 {
    if !in_column(x, y, z) {
        AIR
    } else if y < 32 {
        s0[section_index(x, y, z)]
    } else if y < 64 {
        s1[section_index(x, y - 32, z)]
    } else {
        s2[section_index(x, y - 64, z)]
    }
}

/// The section entries past the first cube are the same in `a` and `b`.
pub open spec fn same_tail(a: Seq<u32>, b: Seq<u32>) -> bool {
    &&& a.len() == b.len()
    &&& forall|i: int| 32768 <= i < a.len() ==> #[trigger] a[i] == b[i]
}

/// Local coordinates inside a section address distinct cells, all below 32³.
pub proof fn lemma_section_index_injective(x1: int, y1: int, z1: int, x2: int, y2: int, z2: int)
    requires
        0 <= x1 < 32,
        0 <= y1 < 32,
        0 <= z1 < 32,
        0 <= x2 < 32,
        0 <= y2 < 32,
        0 <= z2 < 32,
    ensures
        0 <= section_index(x1, y1, z1) < 32768,
        section_index(x1, y1, z1) == section_index(x2, y2, z2) ==> (x1 == x2 && y1 == y2 && z1
            == z2),
{
}

/// Converts local `(x, y, z)` coordinates inside one 32³ section into a flat index.
pub fn sec_idx(x: usize, y: usize, z: usize) -> (i: usize)
    requires
        x + 32 * (y + 32 * z) <= usize::MAX,
    ensures
        i == section_index(x as int, y as int, z as int),
        i == x + 32 * y + 1024 * z,
{
    x + DIM * (y + DIM * z)
}

/// Reads a runtime block ID from the local buffer. Out-of-bounds reads are air.
pub fn get_world(s0: &[u32], s1: &[u32], s2: &[u32], x: i32, y: i32, z: i32) -> (id: u32)
    requires
        in_column(x as int, y as int, z as int) ==> sections_ok(s0@, s1@, s2@),
    ensures
        id == cell(s0@, s1@, s2@, x as int, y as int, z as int),
{
    if x < 0 || z < 0 || x >= IDIM || z >= IDIM || y < 0 || y >= WORLD_H {
        return AIR;
    }
    if y < 32 {
        s0[sec_idx(x as usize, y as usize, z as usize)]
    } else if y < 64 {
        s1[sec_idx(x as usize, (y - 32) as usize, z as usize)]
    } else {
        s2[sec_idx(x as usize, (y - 64) as usize, z as usize)]
    }
}

/// The column after writing `id` at `(x, y, z)`: the cell reads `id` when it
/// lies in the column, and every other cell is unchanged.
pub open spec fn written(
    old0: Seq<u32>,
    old1: Seq<u32>,
    old2: Seq<u32>,
    new0: Seq<u32>,
    new1: Seq<u32>,
    new2: Seq<u32>,
    x: int,
    y: int,
    z: int,
    id: u32,
) -> bool {
    &&& same_tail(old0, new0)
    &&& same_tail(old1, new1)
    &&& same_tail(old2, new2)
    &&& forall|px: int, py: int, pz: int|
        in_column(px, py, pz) ==> #[trigger] cell(new0, new1, new2, px, py, pz) == if px == x
            && py == y && pz == z {
            id
        } else {
            cell(old0, old1, old2, px, py, pz)
        }
}

/// Writes a runtime block ID into the local three-section column buffer.
/// Writes outside the column are ignored.
pub fn set_world(s0: &mut [u32], s1: &mut [u32], s2: &mut [u32], x: i32, y: i32, z: i32, id: u32)
    requires
        in_column(x as int, y as int, z as int) ==> sections_ok(old(s0)@, old(s1)@, old(s2)@),
    ensures
        final(s0)@ == if in_column(x as int, y as int, z as int) && y < 32 {
            old(s0)@.update(section_index(x as int, y as int, z as int), id)
        } else {
            old(s0)@
        },
        final(s1)@ == if in_column(x as int, y as int, z as int) && 32 <= y < 64 {
            old(s1)@.update(section_index(x as int, y - 32, z as int), id)
        } else {
            old(s1)@
        },
        final(s2)@ == if in_column(x as int, y as int, z as int) && 64 <= y {
            old(s2)@.update(section_index(x as int, y - 64, z as int), id)
        } else {
            old(s2)@
        },
        written(
            old(s0)@,
            old(s1)@,
            old(s2)@,
            final(s0)@,
            final(s1)@,
            final(s2)@,
            x as int,
            y as int,
            z as int,
            id,
        ),
{
    let ghost (o0, o1, o2) = (s0@, s1@, s2@);
    if x < 0 || z < 0 || x >= IDIM || z >= IDIM || y < 0 || y >= WORLD_H {
        return;
    }
    if y < 32 {
        s0[sec_idx(x as usize, y as usize, z as usize)] = id;
    } else if y < 64 {
        s1[sec_idx(x as usize, (y - 32) as usize, z as usize)] = id;
    } else {
        s2[sec_idx(x as usize, (y - 64) as usize, z as usize)] = id;
    }
    proof {
        assert forall|px: int, py: int, pz: int| in_column(px, py, pz) implies #[trigger] cell(
            s0@,
            s1@,
            s2@,
            px,
            py,
            pz,
        ) == if px == x && py == y && pz == z {
            id
        } else {
            cell(o0, o1, o2, px, py, pz)
        } by {
            let ly: int = if y < 32 { y as int } else if y < 64 { y - 32 } else { y - 64 };
            let lpy: int = if py < 32 { py } else if py < 64 { py - 32 } else { py - 64 };
            lemma_section_index_injective(x as int, ly, z as int, px, lpy, pz);
        }
    }
}

/// Runtime block IDs resolved from the block registry for one generation call.
#[derive(Clone, Copy)]
pub struct GenBlockIds {
    pub stone: u32,
    pub dirt: u32,
    pub grass: u32,
    pub cobblestone: u32,
    pub log: u32,
    pub leaves: u32,
    pub sand: u32,
    pub gravel: u32,
    pub snow: u32,
}

/// Reading a cell after writing it gives the written block when the cell lies
/// in the column, and air when it does not; every other cell reads as before.
pub proof fn lemma_read_after_write(
    o0: Seq<u32>,
    o1: Seq<u32>,
    o2: Seq<u32>,
    n0: Seq<u32>,
    n1: Seq<u32>,
    n2: Seq<u32>,
    x: int,
    y: int,
    z: int,
    id: u32,
    qx: int,
    qy: int,
    qz: int,
)
    requires
        written(o0, o1, o2, n0, n1, n2, x, y, z, id),
    ensures
        cell(n0, n1, n2, x, y, z) == if in_column(x, y, z) {
            id
        } else {
            AIR
        },
        !(qx == x && qy == y && qz == z) ==> cell(n0, n1, n2, qx, qy, qz) == cell(
            o0,
            o1,
            o2,
            qx,
            qy,
            qz,
        ),
{
    if in_column(x, y, z) {
        assert(cell(n0, n1, n2, x, y, z) == id);
    }
    if in_column(qx, qy, qz) {
        assert(cell(n0, n1, n2, qx, qy, qz) == if qx == x && qy == y && qz == z {
            id
        } else {
            cell(o0, o1, o2, qx, qy, qz)
        });
    }
}

/// The runtime ID found for a key, or its fixed fallback when the registry has none.
pub open spec fn id_or(found: Option<u32>, fallback: u32) -> u32 {
    match found {
        Some(id) => id,
        None => fallback,
    }
}

/// Block IDs from the registry lookups of stone, dirt, grass, cobblestone,
/// log, leaves, sand, gravel and snow, in that order; a missing entry falls
/// back to 1 through 9 by its position.
pub fn resolve_block_ids(found: [Option<u32>; 9]) -> (ids: GenBlockIds)
    ensures
        ids.stone == id_or(found[0], 1),
        ids.dirt == id_or(found[1], 2),
        ids.grass == id_or(found[2], 3),
        ids.cobblestone == id_or(found[3], 4),
        ids.log == id_or(found[4], 5),
        ids.leaves == id_or(found[5], 6),
        ids.sand == id_or(found[6], 7),
        ids.gravel == id_or(found[7], 8),
        ids.snow == id_or(found[8], 9),
{
    GenBlockIds {
        stone: found[0].unwrap_or(1),
        dirt: found[1].unwrap_or(2),
        grass: found[2].unwrap_or(3),
        cobblestone: found[3].unwrap_or(4),
        log: found[4].unwrap_or(5),
        leaves: found[5].unwrap_or(6),
        sand: found[6].unwrap_or(7),
        gravel: found[7].unwrap_or(8),
        snow: found[8].unwrap_or(9),
    }
}

} // verus!
