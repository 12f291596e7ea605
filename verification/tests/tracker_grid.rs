use static_runtime::behavior::addons::blob::{flood_fill, largest_blob};
use static_runtime::behavior::addons::face_tracking_lite::{cell_span, grid_dims};

fn rect_mask(w: usize, h: usize, x0: usize, y0: usize, x1: usize, y1: usize) -> Vec<bool> {
    let mut m = vec![false; w * h];
    for y in y0..y1 {
        for x in x0..x1 {
            m[y * w + x] = true;
        }
    }
    m
}

#[test]
fn empty_mask_has_no_blob() {
    assert_eq!(largest_blob(&vec![false; 12], 4, 3), None);
}

#[test]
fn a_rectangle_is_one_blob_with_its_moments_and_box() {
    let (w, h) = (6usize, 5usize);
    let m = rect_mask(w, h, 1, 2, 4, 4); // x in 1..4, y in 2..4
    let b = largest_blob(&m, w, h).unwrap();
    assert_eq!(b.area, 6);
    assert_eq!((b.minx, b.miny, b.maxx, b.maxy), (1, 2, 3, 3));
    assert_eq!(b.sx, 2 * (1 + 2 + 3));
    assert_eq!(b.sy, 3 * (2 + 3));
    assert_eq!(b.sxx, 2 * (1 + 4 + 9));
    assert_eq!(b.syy, 3 * (4 + 9));
    assert_eq!(b.sxy, (1 + 2 + 3) * (2 + 3));
}

#[test]
fn the_larger_of_two_blobs_wins_and_ties_go_to_the_first() {
    let (w, h) = (8usize, 4usize);
    let mut m = rect_mask(w, h, 0, 0, 2, 2); // 4 cells, top-left
    for (x, y) in [(5, 0), (6, 0), (5, 1), (6, 1), (7, 1)] {
        m[y * w + x] = true; // 5 cells, right
    }
    let b = largest_blob(&m, w, h).unwrap();
    assert_eq!(b.area, 5);
    assert_eq!(b.minx, 5);

    let mut tie = rect_mask(w, h, 0, 0, 2, 1);
    tie[3 * w + 6] = true;
    tie[3 * w + 7] = true;
    let b = largest_blob(&tie, w, h).unwrap();
    assert_eq!((b.area, b.miny), (2, 0), "equal areas: the first in row-major order");
}

#[test]
fn diagonal_cells_are_not_connected() {
    let (w, h) = (3usize, 3usize);
    let mut m = vec![false; 9];
    m[0] = true;
    m[4] = true;
    m[8] = true;
    let b = largest_blob(&m, w, h).unwrap();
    assert_eq!(b.area, 1);
}

#[test]
fn flood_fill_marks_exactly_the_component() {
    let (w, h) = (5usize, 3usize);
    let mut m = rect_mask(w, h, 0, 0, 2, 3);
    m[4] = true; // separate cell at the top right
    let mut visited = vec![false; w * h];
    let mut stack = Vec::new();
    let b = flood_fill(&m, &mut visited, &mut stack, 0, w, h);
    assert_eq!(b.area, 6);
    assert!(!visited[4], "the other component stays unmarked");
    assert_eq!(visited.iter().filter(|v| **v).count(), 6);
    let b2 = flood_fill(&m, &mut visited, &mut stack, 4, w, h);
    assert_eq!((b2.area, b2.minx, b2.maxx), (1, 4, 4));
}

#[test]
fn grid_follows_the_source_aspect() {
    assert_eq!(grid_dims(160, 120), (80, 60));
    assert_eq!(grid_dims(40, 30), (40, 30));
    assert_eq!(grid_dims(0, 10), (1, 10));
    assert_eq!(grid_dims(1000, 1), (80, 1));
}

#[test]
fn cell_spans_cover_the_axis() {
    assert_eq!(cell_span(0, 80, 160), (0, 2));
    assert_eq!(cell_span(79, 80, 160), (158, 160));
    assert_eq!(cell_span(3, 4, 2), (1, 2), "at least one pixel per cell");
    assert_eq!(cell_span(0, 1, 5), (0, 5));
}
