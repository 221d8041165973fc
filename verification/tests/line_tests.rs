use tetroid::line::{line_cells, LineWalk};

#[test]
fn line_from_a_cell_to_itself_is_that_cell() {
    assert_eq!(line_cells((2, 2), (2, 2)), vec![(2, 2)]);
    assert_eq!(line_cells((-7, 9), (-7, 9)), vec![(-7, 9)]);
}

#[test]
fn horizontal_line_visits_every_cell_in_order() {
    assert_eq!(line_cells((0, 0), (3, 0)), vec![(0, 0), (1, 0), (2, 0), (3, 0)]);
    assert_eq!(line_cells((3, 0), (0, 0)), vec![(3, 0), (2, 0), (1, 0), (0, 0)]);
    assert_eq!(line_cells((1, -2), (1, 1)), vec![(1, -2), (1, -1), (1, 0), (1, 1)]);
}

#[test]
fn shallow_line_rounds_the_short_side_to_the_nearest_cell() {
    assert_eq!(
        line_cells((0, 0), (5, 2)),
        vec![(0, 0), (1, 0), (2, 1), (3, 1), (4, 2), (5, 2)]
    );
    assert_eq!(
        line_cells((5, 2), (0, 0)),
        vec![(5, 2), (4, 2), (3, 1), (2, 1), (1, 0), (0, 0)]
    );
    assert_eq!(
        line_cells((0, 0), (-5, -2)),
        vec![(0, 0), (-1, 0), (-2, -1), (-3, -1), (-4, -2), (-5, -2)]
    );
}

#[test]
fn steep_line_steps_along_its_rows() {
    assert_eq!(
        line_cells((1, 6), (3, 1)),
        vec![(1, 6), (1, 5), (2, 4), (2, 3), (3, 2), (3, 1)]
    );
    assert_eq!(line_cells((0, 0), (1, 3)), vec![(0, 0), (0, 1), (1, 2), (1, 3)]);
}

#[test]
fn a_half_is_rounded_away_from_the_start() {
    // Half way along, the short side stands at one half: it goes to 1.
    assert_eq!(line_cells((0, 0), (2, 1)), vec![(0, 0), (1, 1), (2, 1)]);
    assert_eq!(line_cells((2, 1), (0, 0)), vec![(2, 1), (1, 0), (0, 0)]);
    assert_eq!(line_cells((0, 0), (4, 2)), vec![(0, 0), (1, 1), (2, 1), (3, 2), (4, 2)]);
}

#[test]
fn diagonal_line_steps_along_both_sides() {
    assert_eq!(line_cells((0, 0), (3, 3)), vec![(0, 0), (1, 1), (2, 2), (3, 3)]);
    assert_eq!(line_cells((0, 3), (3, 0)), vec![(0, 3), (1, 2), (2, 1), (3, 0)]);
}

#[test]
fn consecutive_cells_touch_and_none_comes_twice() {
    for &(from, to) in &[((0, 0), (17, 5)), ((3, -4), (-9, 11)), ((5, 5), (5, -8)), ((-2, 7), (40, 6))] {
        let cells = line_cells(from, to);
        let steps = (to.0 - from.0).abs().max((to.1 - from.1).abs()) as usize;
        assert_eq!(cells.len(), steps + 1);
        assert_eq!(cells[0], from);
        assert_eq!(cells[steps], to);
        for pair in cells.windows(2) {
            assert!((pair[0].0 - pair[1].0).abs() <= 1);
            assert!((pair[0].1 - pair[1].1).abs() <= 1);
            assert_ne!(pair[0], pair[1]);
        }
        for (i, cell) in cells.iter().enumerate() {
            assert!(!cells[..i].contains(cell));
        }
    }
}

#[test]
fn line_across_the_whole_range_starts_and_ends_right() {
    let cells = line_cells((i32::MAX - 3, i32::MIN), (i32::MAX, i32::MIN + 1));
    assert_eq!(
        cells,
        vec![
            (i32::MAX - 3, i32::MIN),
            (i32::MAX - 2, i32::MIN),
            (i32::MAX - 1, i32::MIN + 1),
            (i32::MAX, i32::MIN + 1)
        ]
    );
    let mut walk = LineWalk::new((i32::MIN, i32::MAX), (i32::MAX, i32::MIN));
    assert_eq!(walk.position(), (i32::MIN, i32::MAX));
    walk.advance();
    assert_eq!(walk.position(), (i32::MIN + 1, i32::MAX - 1));
}

#[test]
fn walk_goes_cell_by_cell_to_the_end() {
    let mut walk = LineWalk::new((0, 0), (2, 1));
    assert_eq!(walk.position(), (0, 0));
    assert!(!walk.at_end());
    walk.advance();
    assert_eq!(walk.position(), (1, 1));
    assert!(!walk.at_end());
    walk.advance();
    assert_eq!(walk.position(), (2, 1));
    assert!(walk.at_end());
    let still = LineWalk::new((4, 4), (4, 4));
    assert!(still.at_end());
    assert_eq!(still.position(), (4, 4));
}
