use yunnwi_terrain::generation::{generate_column, CaveNoise, ColumnPlan, TreePlan};
use yunnwi_terrain::geology::SurfaceCues;
use yunnwi_terrain::placement::{tree_spot, TreeClimate};
use yunnwi_terrain::runs::VerticalRun;
use yunnwi_terrain::world::{get_world, set_world, GenBlockIds, AIR, SECTION_LEN};

fn ids() -> GenBlockIds {
    GenBlockIds {
        stone: 1,
        dirt: 2,
        grass: 3,
        cobblestone: 4,
        log: 5,
        leaves: 6,
        sand: 7,
        gravel: 8,
        snow: 9,
    }
}

const QUIET: CaveNoise = CaveNoise { narrow: false, wide: false, cheese_high: false, hall_high: false };

fn calm() -> TreeClimate {
    TreeClimate { cold: false, parched: false, hot_dry: false, clearing: false }
}

fn flat_plan(h: i32) -> ColumnPlan {
    ColumnPlan {
        bx: 0,
        bz: 0,
        heights: vec![h; 1024],
        slopes: vec![0; 1024],
        mountains: vec![false; 1024],
        cues: vec![
            SurfaceCues { cold: false, dry: false, lush: true, gravel_patch: false, sand_patch: false };
            1024
        ],
        cave_noise: vec![vec![QUIET; (h.max(-1) + 1) as usize]; 1024],
        house_roll: 1,
        lowland: true,
        house_hash: 0x0307,
        trees: vec![],
    }
}

fn paint(runs: &[VerticalRun]) -> (Vec<u32>, Vec<u32>, Vec<u32>) {
    let (mut s0, mut s1, mut s2) = (vec![AIR; SECTION_LEN], vec![AIR; SECTION_LEN], vec![AIR; SECTION_LEN]);
    for r in runs {
        for y in r.y_start..r.y_end {
            set_world(&mut s0, &mut s1, &mut s2, r.x as i32, y, r.z as i32, r.id);
        }
    }
    (s0, s1, s2)
}

fn run(x: u8, z: u8, y_start: i32, y_end: i32, id: u32) -> VerticalRun {
    VerticalRun { x, z, y_start, y_end, id }
}

#[test]
fn flat_column_layers() {
    let runs = generate_column(&flat_plan(10), ids());
    assert_eq!(runs.len(), 3 * 1024);
    assert_eq!(&runs[0..3], &[run(0, 0, 0, 3, 1), run(0, 0, 3, 10, 2), run(0, 0, 10, 11, 3)]);
    assert_eq!(runs[3], run(1, 0, 0, 3, 1));
    assert!(runs.iter().all(|r| r.id != 4 && r.id != 5 && r.id != 6));
}

#[test]
fn caves_leave_air() {
    let mut plan = flat_plan(10);
    plan.cave_noise[0][4].narrow = true;
    plan.cave_noise[0][9].narrow = true;
    plan.cave_noise[1][3].cheese_high = true;
    let runs = generate_column(&plan, ids());
    let (s0, s1, s2) = paint(&runs);
    assert_eq!(get_world(&s0, &s1, &s2, 0, 4, 0), AIR);
    // too close to the surface for a tunnel
    assert_eq!(get_world(&s0, &s1, &s2, 0, 9, 0), 2);
    // too close to the surface for a cheese pocket
    assert_eq!(get_world(&s0, &s1, &s2, 1, 3, 0), 2);
    assert_eq!(&runs[0..4], &[run(0, 0, 0, 3, 1), run(0, 0, 3, 4, 2), run(0, 0, 5, 10, 2), run(0, 0, 10, 11, 3)]);
}

#[test]
fn house_only_when_rolled_on_lowland() {
    let none = generate_column(&flat_plan(10), ids());
    assert!(none.iter().all(|r| r.id != 4));
    let mut plan = flat_plan(10);
    plan.house_roll = 170;
    let runs = generate_column(&plan, ids());
    let (s0, s1, s2) = paint(&runs);
    // house of variant 0x0307 at local (10, 8), floor at 11
    assert_eq!(get_world(&s0, &s1, &s2, 10, 10, 8), 4);
    assert_eq!(get_world(&s0, &s1, &s2, 10, 11, 8), 4);
    assert_eq!(get_world(&s0, &s1, &s2, 11, 11, 9), 2);
    plan.lowland = false;
    assert!(generate_column(&plan, ids()).iter().all(|r| r.id != 4));
}

#[test]
fn trees_grow_on_grass_clear_of_the_house() {
    let mut plan = flat_plan(10);
    let (tx, tz) = tree_spot(0x040C);
    assert_eq!((tx, tz), (7, 9));
    plan.trees = vec![TreePlan { th: 0x040C, slope: 0, climate: calm() }];
    let runs = generate_column(&plan, ids());
    let (s0, s1, s2) = paint(&runs);
    assert_eq!(get_world(&s0, &s1, &s2, 7, 11, 9), 5);
    assert_eq!(get_world(&s0, &s1, &s2, 7, 10, 9), 3);
    assert_eq!(get_world(&s0, &s1, &s2, 8, 15, 9), 6);
    // with the house at (10, 8) the spot is too close
    plan.house_roll = 0;
    let runs = generate_column(&plan, ids());
    assert!(runs.iter().all(|r| r.id != 5));
    // a refused site grows nothing
    plan.house_roll = 1;
    plan.trees = vec![TreePlan { th: 0x040C, slope: 4, climate: calm() }];
    assert!(generate_column(&plan, ids()).iter().all(|r| r.id != 5 && r.id != 6));
}

#[test]
fn column_bottom_stays_filled() {
    let mut plan = flat_plan(0);
    plan.trees = vec![TreePlan { th: 0x040C, slope: 0, climate: calm() }];
    let runs = generate_column(&plan, ids());
    let (s0, s1, s2) = paint(&runs);
    for z in 0..32 {
        for x in 0..32 {
            assert_eq!(get_world(&s0, &s1, &s2, x, 0, z), 3);
        }
    }
    assert_eq!(get_world(&s0, &s1, &s2, 7, 1, 9), 5);
}

#[test]
fn columns_without_ground_stay_empty() {
    let runs = generate_column(&flat_plan(-1), ids());
    assert!(runs.is_empty());
}
