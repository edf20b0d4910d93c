use yunnwi_terrain::caves::{
    in_cheese_band, in_hall_band, in_tunnel_band, is_cave, is_cave_hall, is_cheese_cave,
};
use yunnwi_terrain::geology::{fill_terrain_column, slope_at, terrain_material, SurfaceContext, SurfaceCues};
use yunnwi_terrain::placement::{
    grow_tree, house_site, settle, tree_candidate, tree_site_ok, wants_house, TreeClimate,
};
use yunnwi_terrain::spawn::{spawn_height_ok, spawn_jitter};
use yunnwi_terrain::world::{get_world, set_world, GenBlockIds, AIR, SECTION_LEN};

fn ids() -> GenBlockIds {
    GenBlockIds {
        stone: 1,
        dirt: 2,
        grass: 3,
        cobblestone: 4,
        log: 5,
        leaves: 6,
        sand: 7,
        gravel: 8,
        snow: 9,
    }
}

fn empty() -> (Vec<u32>, Vec<u32>, Vec<u32>) {
    (vec![AIR; SECTION_LEN], vec![AIR; SECTION_LEN], vec![AIR; SECTION_LEN])
}

fn ctx(y: i32, surface_h: i32, slope: u32, is_mountain: bool) -> SurfaceContext {
    SurfaceContext { wx: 0, wz: 0, y, surface_h, slope, is_mountain }
}

fn cues(cold: bool, dry: bool, lush: bool, gravel_patch: bool, sand_patch: bool) -> SurfaceCues {
    SurfaceCues { cold, dry, lush, gravel_patch, sand_patch }
}

fn mild() -> SurfaceCues {
    cues(false, false, true, false, false)
}

#[test]
fn tunnel_band_limits() {
    assert!(!in_tunnel_band(1, 40));
    assert!(in_tunnel_band(2, 40));
    assert!(in_tunnel_band(28, 40));
    assert!(!in_tunnel_band(29, 40));
    assert!(in_tunnel_band(10, 16));
    assert!(!in_tunnel_band(10, 15));
    assert!(!in_tunnel_band(10, i32::MIN));
}

#[test]
fn tunnel_threshold_switches_at_height_eight() {
    assert!(is_cave(7, 40, true, false));
    assert!(!is_cave(7, 40, false, true));
    assert!(is_cave(8, 40, false, true));
    assert!(!is_cave(8, 40, true, false));
    assert!(!is_cave(30, 40, true, true));
    assert!(!is_cave(20, 25, true, true));
}

#[test]
fn cheese_and_hall_bands() {
    assert!(!in_cheese_band(2, 40));
    assert!(in_cheese_band(3, 40));
    assert!(in_cheese_band(20, 28));
    assert!(!in_cheese_band(20, 27));
    assert!(!in_cheese_band(21, 40));
    assert!(is_cheese_cave(10, 40, true));
    assert!(!is_cheese_cave(10, 40, false));
    assert!(!in_hall_band(17, 40));
    assert!(in_hall_band(16, 26));
    assert!(!in_hall_band(16, 25));
    assert!(is_cave_hall(5, 40, true));
    assert!(!is_cave_hall(5, 14, true));
}

#[test]
fn deep_cells_are_stone() {
    assert_eq!(terrain_material(ctx(10, 18, 0, false), mild(), ids()), 1);
    assert_eq!(terrain_material(ctx(10, 17, 0, false), mild(), ids()), 2);
    assert_eq!(terrain_material(ctx(10, 17, 3, true), mild(), ids()), 1);
    assert_eq!(terrain_material(ctx(10, 17, 2, true), mild(), ids()), 2);
}

#[test]
fn surface_materials() {
    // lush lowland grass, otherwise sand when dry and dirt when not
    assert_eq!(terrain_material(ctx(20, 20, 0, false), mild(), ids()), 3);
    assert_eq!(terrain_material(ctx(20, 20, 0, false), cues(false, true, false, false, false), ids()), 7);
    assert_eq!(terrain_material(ctx(20, 20, 0, false), cues(false, false, false, false, false), ids()), 2);
    // dry lowland sand patch
    assert_eq!(terrain_material(ctx(20, 20, 0, false), cues(false, true, true, false, true), ids()), 7);
    assert_eq!(terrain_material(ctx(30, 30, 0, false), cues(false, true, true, false, true), ids()), 3);
    // snow on cold alpine surfaces unless very steep
    assert_eq!(terrain_material(ctx(40, 40, 3, false), cues(true, false, true, false, false), ids()), 9);
    assert_eq!(terrain_material(ctx(40, 40, 4, false), cues(true, false, true, false, false), ids()), 1);
    assert_eq!(terrain_material(ctx(35, 35, 0, false), cues(true, false, true, false, false), ids()), 9);
    assert_eq!(terrain_material(ctx(30, 30, 0, false), cues(true, false, true, false, false), ids()), 3);
    // steep or mountain surfaces: gravel patches on stone
    assert_eq!(terrain_material(ctx(20, 20, 3, false), cues(false, false, true, true, false), ids()), 8);
    assert_eq!(terrain_material(ctx(20, 20, 0, true), mild(), ids()), 1);
    assert_eq!(terrain_material(ctx(45, 45, 1, true), cues(false, false, true, true, false), ids()), 8);
}

#[test]
fn near_surface_materials() {
    assert_eq!(terrain_material(ctx(39, 40, 0, false), cues(true, false, true, false, false), ids()), 9);
    assert_eq!(terrain_material(ctx(38, 40, 0, false), cues(true, false, true, false, false), ids()), 2);
    assert_eq!(terrain_material(ctx(18, 20, 3, false), mild(), ids()), 8);
    assert_eq!(terrain_material(ctx(18, 20, 0, false), cues(false, true, true, false, false), ids()), 7);
    assert_eq!(terrain_material(ctx(19, 20, 0, false), mild(), ids()), 2);
    // above the surface
    assert_eq!(terrain_material(ctx(25, 20, 0, false), mild(), ids()), 2);
}

#[test]
fn slope_is_largest_neighbour_difference() {
    assert_eq!(slope_at(0, 0, |_x, _z| 10), 0);
    assert_eq!(slope_at(5, 5, |x, z| x + 2 * z), 2);
    assert_eq!(slope_at(0, 0, |x, z| if x == -1 && z == 0 { 3 } else { 10 }), 7);
    assert_eq!(slope_at(0, 0, |x, _z| if x == 0 { i32::MIN } else { i32::MAX }), u32::MAX);
}

#[test]
fn fill_column_skips_open_cells() {
    let (mut s0, mut s1, mut s2) = empty();
    let mut open = vec![false; 12];
    open[3] = true;
    open[4] = true;
    fill_terrain_column(&mut s0, &mut s1, &mut s2, ids(), 2, 3, ctx(0, 11, 0, false), mild(), &open);
    assert_eq!(get_world(&s0, &s1, &s2, 2, 0, 3), 1);
    assert_eq!(get_world(&s0, &s1, &s2, 2, 3, 3), AIR);
    assert_eq!(get_world(&s0, &s1, &s2, 2, 4, 3), AIR);
    assert_eq!(get_world(&s0, &s1, &s2, 2, 5, 3), 2);
    assert_eq!(get_world(&s0, &s1, &s2, 2, 11, 3), 3);
    assert_eq!(get_world(&s0, &s1, &s2, 2, 12, 3), AIR);
    assert_eq!(get_world(&s0, &s1, &s2, 3, 0, 3), AIR);
    let (mut t0, mut t1, mut t2) = empty();
    fill_terrain_column(&mut t0, &mut t1, &mut t2, ids(), 2, 3, ctx(0, -1, 0, false), mild(), &[]);
    assert_eq!(get_world(&t0, &t1, &t2, 2, 0, 3), AIR);
}

#[test]
fn houses_are_rare_and_lowland() {
    assert!(wants_house(0, true));
    assert!(wants_house(170, true));
    assert!(!wants_house(170, false));
    assert!(!wants_house(171, true));
}

#[test]
fn house_site_from_hash() {
    let mut heights = vec![20i32; 1024];
    // hh = 0x0307: x = 775 % 14 + 5 = 10, z = 3 % 14 + 5 = 8
    assert_eq!(house_site(0x0307, &heights), Some((10, 21, 8)));
    heights[10 + 32 * 8] = 0;
    assert_eq!(house_site(0x0307, &heights), None);
    heights[10 + 32 * 8] = 88;
    assert_eq!(house_site(0x0307, &heights), Some((10, 89, 8)));
    heights[10 + 32 * 8] = 89;
    assert_eq!(house_site(0x0307, &heights), None);
    heights[10 + 32 * 8] = i32::MAX;
    assert_eq!(house_site(0x0307, &heights), None);
}

#[test]
fn settle_builds_the_house() {
    let heights = vec![20i32; 1024];
    let (mut s0, mut s1, mut s2) = empty();
    assert_eq!(settle(&mut s0, &mut s1, &mut s2, ids(), 0x0307, &heights), Some((10, 8)));
    assert_eq!(get_world(&s0, &s1, &s2, 10, 20, 8), 4);
    assert_eq!(get_world(&s0, &s1, &s2, 11, 21, 9), 2);
    let low = vec![0i32; 1024];
    let (mut t0, mut t1, mut t2) = empty();
    assert_eq!(settle(&mut t0, &mut t1, &mut t2, ids(), 0x0307, &low), None);
    assert!(t0.iter().chain(t1.iter()).chain(t2.iter()).all(|&v| v == AIR));
}

#[test]
fn tree_candidates_keep_clear_of_the_house() {
    let mut heights = vec![30i32; 1024];
    heights[7 + 32 * 9] = 33;
    // th = 0x040C: x = 1036 % 22 + 5 = 7, z = 4 + 5 = 9
    assert_eq!(tree_candidate(0x040C, &heights, None), Some((7, 33, 9)));
    assert_eq!(tree_candidate(0x040C, &heights, Some((10, 8))), None);
    assert_eq!(tree_candidate(0x040C, &heights, Some((16, 9))), None);
    assert_eq!(tree_candidate(0x040C, &heights, Some((17, 9))), Some((7, 33, 9)));
    assert_eq!(tree_candidate(0x040C, &heights, Some((i32::MIN, i32::MAX))), Some((7, 33, 9)));
}

fn calm() -> TreeClimate {
    TreeClimate { cold: false, parched: false, hot_dry: false, clearing: false }
}

#[test]
fn tree_site_rules() {
    assert!(tree_site_ok(3, 54, calm()));
    assert!(!tree_site_ok(4, 30, calm()));
    assert!(!tree_site_ok(0, 55, calm()));
    assert!(!tree_site_ok(0, 39, TreeClimate { cold: true, ..calm() }));
    assert!(tree_site_ok(0, 38, TreeClimate { cold: true, ..calm() }));
    assert!(!tree_site_ok(0, 20, TreeClimate { parched: true, ..calm() }));
    assert!(!tree_site_ok(0, 20, TreeClimate { hot_dry: true, ..calm() }));
    assert!(!tree_site_ok(0, 20, TreeClimate { clearing: true, ..calm() }));
}

#[test]
fn trees_grow_only_on_grass() {
    let (mut s0, mut s1, mut s2) = empty();
    set_world(&mut s0, &mut s1, &mut s2, 10, 30, 10, 3);
    set_world(&mut s0, &mut s1, &mut s2, 20, 30, 20, 2);
    assert!(grow_tree(&mut s0, &mut s1, &mut s2, ids(), 10, 30, 10, 0, 0, calm()));
    assert_eq!(get_world(&s0, &s1, &s2, 10, 31, 10), 5);
    assert_eq!(get_world(&s0, &s1, &s2, 10, 30, 10), 3);
    assert!(!grow_tree(&mut s0, &mut s1, &mut s2, ids(), 20, 30, 20, 0, 0, calm()));
    assert_eq!(get_world(&s0, &s1, &s2, 20, 31, 20), AIR);
    set_world(&mut s0, &mut s1, &mut s2, 20, 30, 20, 3);
    assert!(!grow_tree(&mut s0, &mut s1, &mut s2, ids(), 20, 30, 20, 0, 4, calm()));
    assert_eq!(get_world(&s0, &s1, &s2, 20, 31, 20), AIR);
}

#[test]
fn spawn_rules() {
    assert_eq!(spawn_jitter(0), (-20, -20));
    assert_eq!(spawn_jitter(40 << 8), (20, -20));
    assert_eq!(spawn_jitter(5 << 17), (-2, -15));
    assert_eq!(spawn_jitter(u32::MAX), ((0xFF_FFFF % 41) as i32 - 20, (0x7FFF % 41) as i32 - 20));
    assert!(!spawn_height_ok(5));
    assert!(spawn_height_ok(6));
    assert!(spawn_height_ok(87));
    assert!(!spawn_height_ok(88));
}
