use glass::cell::{Cell, Material};
use glass::coin::CoinTape;
use glass::grid::SandGrid;

fn sand() -> Cell {
    Cell::of_material(Material::Sand)
}

fn empty() -> Cell {
    Cell::empty()
}

#[test]
fn single_cell_falls_straight_down() {
    // 3x3 grid, sand at logical (1, 1), (1, 0) empty: one step moves it
    // down deterministically; no coin is drawn.
    let mut grid = SandGrid::new(3, 3);
    grid.paint_cell(1, 1, sand());
    let mut tape = CoinTape::new(vec![]);
    grid.simulate(&mut tape);
    assert_eq!(grid.cell_at(1, 0), sand());
    assert_eq!(grid.cell_at(1, 1), empty());
}

#[test]
fn diagonal_fall_goes_left_on_true_toss() {
    // sand at (1, 1); (1, 0) occupied, (0, 0) empty, (2, 0) occupied:
    // a true toss sends it down-left to (0, 0).
    let mut grid = SandGrid::new(3, 3);
    grid.paint_cell(1, 1, sand());
    grid.paint_cell(1, 0, sand());
    grid.paint_cell(2, 0, sand());
    let mut tape = CoinTape::new(vec![true]);
    grid.simulate(&mut tape);
    assert_eq!(grid.cell_at(0, 0), sand());
    assert_eq!(grid.cell_at(1, 1), empty());
    assert_eq!(grid.cell_at(1, 0), sand());
    assert_eq!(grid.cell_at(2, 0), sand());
}

#[test]
fn diagonal_fall_stays_put_on_false_toss() {
    // same setup, false toss: the right diagonal (2, 0) is occupied, so
    // the cell does not move this step.
    let mut grid = SandGrid::new(3, 3);
    grid.paint_cell(1, 1, sand());
    grid.paint_cell(1, 0, sand());
    grid.paint_cell(2, 0, sand());
    let mut tape = CoinTape::new(vec![false]);
    grid.simulate(&mut tape);
    assert_eq!(grid.cell_at(1, 1), sand());
    assert_eq!(grid.cell_at(0, 0), empty());
    assert_eq!(grid.cell_at(1, 0), sand());
    assert_eq!(grid.cell_at(2, 0), sand());
}

#[test]
fn diagonal_fall_goes_right_on_false_toss() {
    // sand at (1, 1); (1, 0) occupied, both diagonals free: a false
    // toss picks the right diagonal.
    let mut grid = SandGrid::new(3, 3);
    grid.paint_cell(1, 1, sand());
    grid.paint_cell(1, 0, sand());
    let mut tape = CoinTape::new(vec![false]);
    grid.simulate(&mut tape);
    assert_eq!(grid.cell_at(2, 0), sand());
    assert_eq!(grid.cell_at(1, 1), empty());
}

#[test]
fn left_column_falls_right_even_on_true_toss() {
    // at column 0 there is no down-left neighbor, so a true toss falls
    // through to the down-right rule.
    let mut grid = SandGrid::new(3, 3);
    grid.paint_cell(0, 1, sand());
    grid.paint_cell(0, 0, sand());
    let mut tape = CoinTape::new(vec![true]);
    grid.simulate(&mut tape);
    assert_eq!(grid.cell_at(1, 0), sand());
    assert_eq!(grid.cell_at(0, 1), empty());
    assert_eq!(grid.cell_at(0, 0), sand());
}

#[test]
fn right_column_true_toss_falls_left() {
    let mut grid = SandGrid::new(3, 3);
    grid.paint_cell(2, 1, sand());
    grid.paint_cell(2, 0, sand());
    let mut tape = CoinTape::new(vec![true]);
    grid.simulate(&mut tape);
    assert_eq!(grid.cell_at(1, 0), sand());
    assert_eq!(grid.cell_at(2, 1), empty());
    assert_eq!(grid.cell_at(2, 0), sand());
}

#[test]
fn right_column_false_toss_stays() {
    // at the last column a false toss has no down-right neighbor to
    // move to, so the cell stays.
    let mut grid = SandGrid::new(3, 3);
    grid.paint_cell(2, 1, sand());
    grid.paint_cell(2, 0, sand());
    let mut tape = CoinTape::new(vec![false]);
    grid.simulate(&mut tape);
    assert_eq!(grid.cell_at(2, 1), sand());
    assert_eq!(grid.cell_at(1, 0), empty());
}

#[test]
fn bottom_row_never_moves() {
    let mut grid = SandGrid::new(3, 3);
    grid.paint_cell(0, 0, sand());
    grid.paint_cell(1, 0, sand());
    grid.paint_cell(2, 0, sand());
    let mut tape = CoinTape::new(vec![true, false, true]);
    grid.simulate(&mut tape);
    assert_eq!(grid.cell_at(0, 0), sand());
    assert_eq!(grid.cell_at(1, 0), sand());
    assert_eq!(grid.cell_at(2, 0), sand());
    for x in 0..3 {
        for y in 1..3 {
            assert_eq!(grid.cell_at(x, y), empty());
        }
    }
}

#[test]
fn blocked_cell_surrounded_stays() {
    // sand at (1, 1) with (0, 0), (1, 0) and (2, 0) all occupied does
    // not move whatever the toss.
    for toss in [true, false] {
        let mut grid = SandGrid::new(3, 3);
        grid.paint_cell(1, 1, sand());
        grid.paint_cell(0, 0, sand());
        grid.paint_cell(1, 0, sand());
        grid.paint_cell(2, 0, sand());
        let mut tape = CoinTape::new(vec![toss]);
        grid.simulate(&mut tape);
        assert_eq!(grid.cell_at(1, 1), sand(), "toss {toss}");
    }
}

#[test]
fn falling_cell_is_not_revisited_within_one_step() {
    // a single cell high up falls exactly one row per step, because the
    // bottom-to-top scan has already passed the row it lands in.
    let mut grid = SandGrid::new(3, 3);
    grid.paint_cell(1, 2, sand());
    let mut tape = CoinTape::new(vec![]);
    grid.simulate(&mut tape);
    assert_eq!(grid.cell_at(1, 1), sand());
    assert_eq!(grid.cell_at(1, 2), empty());
    assert_eq!(grid.cell_at(1, 0), empty());
    let mut tape = CoinTape::new(vec![]);
    grid.simulate(&mut tape);
    assert_eq!(grid.cell_at(1, 0), sand());
    assert_eq!(grid.cell_at(1, 1), empty());
}

#[test]
fn simulate_on_empty_grid_changes_nothing() {
    // a grid with no non-empty cells is a fixed point and stays clean
    let mut grid = SandGrid::new(4, 4);
    let mut tape = CoinTape::new(vec![true, false]);
    grid.simulate(&mut tape);
    assert!(!grid.is_dirty());
    for y in 0..4 {
        for x in 0..4 {
            assert_eq!(grid.cell_at(x, y), empty());
        }
    }
    // and no coin was drawn
    assert!(tape.next());
}

#[test]
fn settled_pile_stops_moving() {
    let mut grid = SandGrid::new(2, 2);
    grid.paint_cell(0, 0, sand());
    grid.paint_cell(1, 0, sand());
    grid.paint_cell(0, 1, sand());
    grid.paint_cell(1, 1, sand());
    let mut sink = glass::upload::LogUploader::new();
    grid.sync_if_dirty(&mut sink);
    let mut tape = CoinTape::new(vec![true, false, true, false]);
    grid.simulate(&mut tape);
    assert!(!grid.is_dirty());
    for y in 0..2 {
        for x in 0..2 {
            assert_eq!(grid.cell_at(x, y), sand());
        }
    }
}

#[test]
fn pixels_follow_the_falling_cell() {
    let mut grid = SandGrid::new(2, 2);
    grid.paint_cell(0, 1, sand());
    let mut tape = CoinTape::new(vec![]);
    grid.simulate(&mut tape);
    let bytes = grid.pixel_data();
    // display row 0 (logical y = 1) is clear again
    assert_eq!(&bytes[0..4], &[0, 0, 0, 0]);
    // display row 1 column 0 (logical (0, 0)) shows the sand color
    assert_eq!(&bytes[8..12], &[230, 200, 110, 255]);
}
