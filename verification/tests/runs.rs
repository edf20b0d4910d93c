use yunnwi_terrain::runs::{run_write, vertical_runs, TerrainWrite, VerticalRun};
use yunnwi_terrain::world::{get_world, set_world, AIR, SECTION_LEN};

fn empty() -> (Vec<u32>, Vec<u32>, Vec<u32>) {
    (vec![AIR; SECTION_LEN], vec![AIR; SECTION_LEN], vec![AIR; SECTION_LEN])
}

fn run(x: u8, z: u8, y_start: i32, y_end: i32, id: u32) -> VerticalRun {
    VerticalRun { x, z, y_start, y_end, id }
}

#[test]
fn empty_column_has_no_runs() {
    let (s0, s1, s2) = empty();
    assert!(vertical_runs(&s0, &s1, &s2).is_empty());
}

#[test]
fn single_block_is_a_run_of_one() {
    let (mut s0, mut s1, mut s2) = empty();
    set_world(&mut s0, &mut s1, &mut s2, 4, 33, 9, 7);
    assert_eq!(vertical_runs(&s0, &s1, &s2), vec![run(4, 9, 33, 34, 7)]);
}

#[test]
fn stacked_materials_split_into_maximal_runs() {
    let (mut s0, mut s1, mut s2) = empty();
    for y in 0..10 {
        set_world(&mut s0, &mut s1, &mut s2, 0, y, 0, 1);
    }
    for y in 10..13 {
        set_world(&mut s0, &mut s1, &mut s2, 0, y, 0, 2);
    }
    set_world(&mut s0, &mut s1, &mut s2, 0, 20, 0, 6);
    for y in 60..96 {
        set_world(&mut s0, &mut s1, &mut s2, 0, y, 0, 1);
    }
    assert_eq!(
        vertical_runs(&s0, &s1, &s2),
        vec![run(0, 0, 0, 10, 1), run(0, 0, 10, 13, 2), run(0, 0, 20, 21, 6), run(0, 0, 60, 96, 1)]
    );
}

#[test]
fn runs_cross_section_boundaries() {
    let (mut s0, mut s1, mut s2) = empty();
    for y in 30..70 {
        set_world(&mut s0, &mut s1, &mut s2, 31, y, 31, 3);
    }
    assert_eq!(vertical_runs(&s0, &s1, &s2), vec![run(31, 31, 30, 70, 3)]);
}

#[test]
fn runs_come_by_z_then_x_then_height() {
    let (mut s0, mut s1, mut s2) = empty();
    set_world(&mut s0, &mut s1, &mut s2, 1, 5, 0, 1);
    set_world(&mut s0, &mut s1, &mut s2, 0, 7, 1, 1);
    set_world(&mut s0, &mut s1, &mut s2, 0, 2, 0, 1);
    set_world(&mut s0, &mut s1, &mut s2, 0, 9, 0, 1);
    assert_eq!(
        vertical_runs(&s0, &s1, &s2),
        vec![run(0, 0, 2, 3, 1), run(0, 0, 9, 10, 1), run(1, 0, 5, 6, 1), run(0, 1, 7, 8, 1)]
    );
}

#[test]
fn painting_runs_reproduces_the_column() {
    let (mut s0, mut s1, mut s2) = empty();
    let mut state: u32 = 12345;
    for z in 0..32 {
        for x in 0..32 {
            for y in 0..96 {
                state = state.wrapping_mul(1103515245).wrapping_add(12345);
                let id = (state >> 16) % 4;
                set_world(&mut s0, &mut s1, &mut s2, x, y, z, id);
            }
        }
    }
    let runs = vertical_runs(&s0, &s1, &s2);
    let (mut p0, mut p1, mut p2) = empty();
    let mut painted = 0usize;
    for r in &runs {
        assert!(r.y_start < r.y_end && r.id != AIR);
        for y in r.y_start..r.y_end {
            assert_eq!(get_world(&p0, &p1, &p2, r.x as i32, y, r.z as i32), AIR);
            set_world(&mut p0, &mut p1, &mut p2, r.x as i32, y, r.z as i32, r.id);
            painted += 1;
        }
    }
    assert!(p0 == s0 && p1 == s1 && p2 == s2);
    let nonair = s0.iter().chain(s1.iter()).chain(s2.iter()).filter(|&&v| v != AIR).count();
    assert_eq!(painted, nonair);
}

#[test]
fn runs_of_one_become_single_blocks() {
    assert_eq!(
        run_write(run(3, 4, 10, 11, 7)),
        TerrainWrite::SetBlock { x: 3, y: 10, z: 4, id: 7 }
    );
    assert_eq!(
        run_write(run(3, 4, 10, 12, 7)),
        TerrainWrite::FillRun { x: 3, z: 4, y_start: 10, y_end: 12, id: 7 }
    );
    assert_eq!(
        run_write(run(0, 0, 0, 96, 1)),
        TerrainWrite::FillRun { x: 0, z: 0, y_start: 0, y_end: 96, id: 1 }
    );
}
