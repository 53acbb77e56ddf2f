use life::cell::Cell;
use life::table::Table;

fn full(rows: usize, columns: usize, cell: Cell) -> Table {
    let mut table = Table::new(rows, columns);
    for row in 0..rows {
        for column in 0..columns {
            table.set((row, column), cell);
        }
    }
    table
}

#[test]
fn new_table_is_all_void() {
    let table = Table::new(4, 7);
    assert_eq!(table.get_size(), (4, 7));
    for row in 0..4 {
        for column in 0..7 {
            assert_eq!(table.get((row, column)), Cell::Void);
        }
    }
}

#[test]
fn try_new_rejects_empty_dimensions() {
    assert!(Table::try_new(0, 5).is_none());
    assert!(Table::try_new(5, 0).is_none());
    assert!(Table::try_new(0, 0).is_none());
}

#[test]
fn try_new_rejects_a_cell_count_that_overflows() {
    assert!(Table::try_new(usize::MAX, 2).is_none());
    assert!(Table::try_new(usize::MAX / 2 + 1, 2).is_none());
}

#[test]
fn try_new_makes_what_new_makes() {
    let made = Table::try_new(3, 2);
    assert_eq!(made, Some(Table::new(3, 2)));
}

#[test]
fn set_then_get_round_trip() {
    let mut table = Table::new(3, 4);
    for row in 0..3 {
        for column in 0..4 {
            table.set((row, column), Cell::Dyaboo);
            assert_eq!(table.get((row, column)), Cell::Dyaboo);
            table.set((row, column), Cell::Void);
            assert_eq!(table.get((row, column)), Cell::Void);
        }
    }
}

#[test]
fn set_changes_one_cell_only() {
    let mut table = Table::new(3, 4);
    table.set((1, 2), Cell::Dyaboo);
    for row in 0..3 {
        for column in 0..4 {
            let expected = if (row, column) == (1, 2) { Cell::Dyaboo } else { Cell::Void };
            assert_eq!(table.get((row, column)), expected);
        }
    }
    assert_eq!(table.get_size(), (3, 4));
}

#[test]
fn rows_and_columns_are_not_mixed_up() {
    let mut table = Table::new(2, 3);
    table.set((0, 2), Cell::Dyaboo);
    assert_eq!(table.get((0, 2)), Cell::Dyaboo);
    assert_eq!(table.get((1, 0)), Cell::Void);
    assert_eq!(table.get((1, 1)), Cell::Void);
}

#[test]
fn interior_cell_has_eight_neighbours() {
    let table = full(4, 5, Cell::Dyaboo);
    assert_eq!(table.around_count((1, 1), Cell::Dyaboo), 8);
    assert_eq!(table.around_count((2, 3), Cell::Dyaboo), 8);
}

#[test]
fn corner_cell_has_three_neighbours() {
    let table = full(4, 5, Cell::Dyaboo);
    assert_eq!(table.around_count((0, 0), Cell::Dyaboo), 3);
    assert_eq!(table.around_count((0, 4), Cell::Dyaboo), 3);
    assert_eq!(table.around_count((3, 0), Cell::Dyaboo), 3);
    assert_eq!(table.around_count((3, 4), Cell::Dyaboo), 3);
}

#[test]
fn edge_cell_has_five_neighbours() {
    let table = full(4, 5, Cell::Dyaboo);
    assert_eq!(table.around_count((0, 2), Cell::Dyaboo), 5);
    assert_eq!(table.around_count((3, 1), Cell::Dyaboo), 5);
    assert_eq!(table.around_count((1, 0), Cell::Dyaboo), 5);
    assert_eq!(table.around_count((2, 4), Cell::Dyaboo), 5);
}

#[test]
fn single_cell_table_has_no_neighbours() {
    let table = full(1, 1, Cell::Dyaboo);
    assert_eq!(table.around_count((0, 0), Cell::Dyaboo), 0);
    assert_eq!(table.around_count((0, 0), Cell::Void), 0);
}

#[test]
fn single_row_table_counts_left_and_right_only() {
    let table = full(1, 4, Cell::Dyaboo);
    assert_eq!(table.around_count((0, 0), Cell::Dyaboo), 1);
    assert_eq!(table.around_count((0, 1), Cell::Dyaboo), 2);
    assert_eq!(table.around_count((0, 3), Cell::Dyaboo), 1);
}

#[test]
fn the_centre_is_not_its_own_neighbour() {
    let mut table = Table::new(3, 3);
    table.set((1, 1), Cell::Dyaboo);
    assert_eq!(table.around_count((1, 1), Cell::Dyaboo), 0);
    assert_eq!(table.around_count((1, 1), Cell::Void), 8);
}

#[test]
fn counts_do_not_wrap_around_the_edges() {
    let mut table = Table::new(4, 4);
    table.set((3, 3), Cell::Dyaboo);
    table.set((0, 3), Cell::Dyaboo);
    table.set((3, 0), Cell::Dyaboo);
    assert_eq!(table.around_count((0, 0), Cell::Dyaboo), 0);
    assert_eq!(table.around_count((0, 0), Cell::Void), 3);
}

#[test]
fn counts_of_both_states_add_up_to_the_neighbours() {
    let mut table = Table::new(3, 3);
    table.set((0, 0), Cell::Dyaboo);
    table.set((0, 1), Cell::Dyaboo);
    table.set((2, 2), Cell::Dyaboo);
    assert_eq!(table.around_count((1, 1), Cell::Dyaboo), 3);
    assert_eq!(table.around_count((1, 1), Cell::Void), 5);
    assert_eq!(table.around_count((0, 0), Cell::Dyaboo), 1);
    assert_eq!(table.around_count((0, 0), Cell::Void), 2);
}
