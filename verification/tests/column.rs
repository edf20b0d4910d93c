use yunnwi_terrain::world::{get_world, resolve_block_ids, sec_idx, set_world, AIR, SECTION_LEN};

fn empty() -> (Vec<u32>, Vec<u32>, Vec<u32>) {
    (vec![AIR; SECTION_LEN], vec![AIR; SECTION_LEN], vec![AIR; SECTION_LEN])
}

#[test]
fn sec_idx_is_x_fastest_then_y_then_z() {
    assert_eq!(sec_idx(0, 0, 0), 0);
    assert_eq!(sec_idx(1, 0, 0), 1);
    assert_eq!(sec_idx(0, 1, 0), 32);
    assert_eq!(sec_idx(0, 0, 1), 1024);
    assert_eq!(sec_idx(1, 2, 3), 3137);
    assert_eq!(sec_idx(31, 31, 31), 32767);
}

#[test]
fn write_then_read_in_each_section() {
    let (mut s0, mut s1, mut s2) = empty();
    set_world(&mut s0, &mut s1, &mut s2, 3, 5, 7, 11);
    set_world(&mut s0, &mut s1, &mut s2, 3, 40, 7, 12);
    set_world(&mut s0, &mut s1, &mut s2, 3, 95, 7, 13);
    assert_eq!(get_world(&s0, &s1, &s2, 3, 5, 7), 11);
    assert_eq!(get_world(&s0, &s1, &s2, 3, 40, 7), 12);
    assert_eq!(get_world(&s0, &s1, &s2, 3, 95, 7), 13);
    assert_eq!(s0[sec_idx(3, 5, 7)], 11);
    assert_eq!(s1[sec_idx(3, 8, 7)], 12);
    assert_eq!(s2[sec_idx(3, 31, 7)], 13);
    assert_eq!(get_world(&s0, &s1, &s2, 3, 6, 7), AIR);
    assert_eq!(get_world(&s0, &s1, &s2, 4, 5, 7), AIR);
}

#[test]
fn section_boundaries() {
    let (mut s0, mut s1, mut s2) = empty();
    set_world(&mut s0, &mut s1, &mut s2, 0, 31, 0, 1);
    set_world(&mut s0, &mut s1, &mut s2, 0, 32, 0, 2);
    set_world(&mut s0, &mut s1, &mut s2, 0, 63, 0, 3);
    set_world(&mut s0, &mut s1, &mut s2, 0, 64, 0, 4);
    assert_eq!(s0[sec_idx(0, 31, 0)], 1);
    assert_eq!(s1[sec_idx(0, 0, 0)], 2);
    assert_eq!(s1[sec_idx(0, 31, 0)], 3);
    assert_eq!(s2[sec_idx(0, 0, 0)], 4);
}

#[test]
fn out_of_column_writes_are_ignored_and_reads_are_air() {
    let (mut s0, mut s1, mut s2) = empty();
    let (c0, c1, c2) = (s0.clone(), s1.clone(), s2.clone());
    for &(x, y, z) in &[(-1, 5, 5), (32, 5, 5), (5, -1, 5), (5, 96, 5), (5, 5, -1), (5, 5, 32)] {
        set_world(&mut s0, &mut s1, &mut s2, x, y, z, 9);
        assert_eq!(get_world(&s0, &s1, &s2, x, y, z), AIR);
    }
    assert!(s0 == c0 && s1 == c1 && s2 == c2);
    let (mut t0, t1, t2) = empty();
    t0[sec_idx(0, 0, 0)] = 7;
    assert_eq!(get_world(&t0, &t1, &t2, 0, 0, 0), 7);
    assert_eq!(get_world(&t0, &t1, &t2, -1, 0, 0), AIR);
    assert_eq!(get_world(&t0, &t1, &t2, i32::MIN, i32::MAX, 0), AIR);
}

#[test]
fn overwrite_keeps_last_and_other_cells() {
    let (mut s0, mut s1, mut s2) = empty();
    set_world(&mut s0, &mut s1, &mut s2, 10, 50, 20, 5);
    set_world(&mut s0, &mut s1, &mut s2, 10, 51, 20, 6);
    set_world(&mut s0, &mut s1, &mut s2, 10, 50, 20, 8);
    assert_eq!(get_world(&s0, &s1, &s2, 10, 50, 20), 8);
    assert_eq!(get_world(&s0, &s1, &s2, 10, 51, 20), 6);
    let nonair = s0.iter().chain(s1.iter()).chain(s2.iter()).filter(|&&v| v != AIR).count();
    assert_eq!(nonair, 2);
}

#[test]
fn longer_sections_keep_their_tail() {
    let mut s0 = vec![AIR; SECTION_LEN + 3];
    let mut s1 = vec![AIR; SECTION_LEN];
    let mut s2 = vec![AIR; SECTION_LEN];
    s0[SECTION_LEN + 1] = 42;
    set_world(&mut s0, &mut s1, &mut s2, 31, 31, 31, 3);
    assert_eq!(s0[SECTION_LEN - 1], 3);
    assert_eq!(s0[SECTION_LEN + 1], 42);
    assert_eq!(s0.len(), SECTION_LEN + 3);
}

#[test]
fn block_ids_fall_back_by_position() {
    let ids = resolve_block_ids([Some(40), None, Some(0), None, None, Some(77), None, None, Some(3)]);
    assert_eq!(
        (ids.stone, ids.dirt, ids.grass, ids.cobblestone, ids.log),
        (40, 2, 0, 4, 5)
    );
    assert_eq!((ids.leaves, ids.sand, ids.gravel, ids.snow), (77, 7, 8, 3));
    let none = resolve_block_ids([None; 9]);
    assert_eq!(
        [none.stone, none.dirt, none.grass, none.cobblestone, none.log, none.leaves, none.sand, none.gravel, none.snow],
        [1, 2, 3, 4, 5, 6, 7, 8, 9]
    );
}

#[test]
fn outside_the_column_any_buffers_do() {
    let (mut s0, mut s1, mut s2): (Vec<u32>, Vec<u32>, Vec<u32>) = (vec![], vec![7], vec![]);
    set_world(&mut s0, &mut s1, &mut s2, -1, 5, 5, 9);
    set_world(&mut s0, &mut s1, &mut s2, 5, 96, 5, 9);
    assert_eq!(get_world(&s0, &s1, &s2, 5, -1, 5), AIR);
    assert_eq!(get_world(&s0, &s1, &s2, 32, 40, 0), AIR);
    assert!(s0.is_empty() && s1 == vec![7] && s2.is_empty());
}
