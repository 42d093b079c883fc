use solar_raycaster::frame::{assemble_rows, pixel_index};

#[test]
fn pixel_index_is_row_major() {
    assert_eq!(pixel_index(4, 3, 0, 0), Some(0));
    assert_eq!(pixel_index(4, 3, 2, 1), Some(6));
    assert_eq!(pixel_index(4, 3, 3, 2), Some(11));
}

#[test]
fn pixel_index_rejects_outside_pixels() {
    assert_eq!(pixel_index(4, 3, -1, 0), None);
    assert_eq!(pixel_index(4, 3, 0, -1), None);
    assert_eq!(pixel_index(4, 3, 4, 0), None);
    assert_eq!(pixel_index(4, 3, 0, 3), None);
    assert_eq!(pixel_index(0, 0, 0, 0), None);
}

#[test]
fn rows_are_joined_top_row_first() {
    let rows = vec![vec![1u32, 2, 3], vec![4, 5, 6]];
    assert_eq!(assemble_rows(rows, 3), vec![1, 2, 3, 4, 5, 6]);
}

#[test]
fn one_row_of_two_pixels() {
    let rows = vec![vec![0xFF0000u32, 0x000000]];
    assert_eq!(assemble_rows(rows, 2), vec![0xFF0000, 0x000000]);
}

#[test]
fn no_rows_give_an_empty_frame() {
    assert_eq!(assemble_rows(Vec::new(), 5), Vec::<u32>::new());
}

#[test]
fn assembling_the_same_rows_twice_is_identical() {
    let rows: Vec<Vec<u32>> = (0..6u32).map(|y| (0..8u32).map(|x| y * 100 + x).collect()).collect();
    let a = assemble_rows(rows.clone(), 8);
    let b = assemble_rows(rows.clone(), 8);
    assert_eq!(a, b);
    assert_eq!(a.len(), 48);
    for y in 0..6usize {
        for x in 0..8usize {
            assert_eq!(a[y * 8 + x], rows[y][x]);
        }
    }
}
