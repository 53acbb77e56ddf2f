use life::app::{App, STEP_TIME};
use life::cell::Cell;
use life::rules::evolve;
use life::table::Table;

fn blinker() -> Table {
    let mut table = Table::new(5, 5);
    table.set((2, 1), Cell::Dyaboo);
    table.set((2, 2), Cell::Dyaboo);
    table.set((2, 3), Cell::Dyaboo);
    table
}

#[test]
fn a_new_app_has_an_empty_account() {
    let app = App::new(blinker());
    assert_eq!(app.time(), 0);
    assert_eq!(app.step_time(), 200_000);
    assert_eq!(app.step_time(), STEP_TIME);
    assert!(app.view_grid());
    assert_eq!(*app.get_table(), blinker());
}

#[test]
fn time_short_of_a_step_only_accumulates() {
    let mut app = App::new(blinker());
    app.update(199_999);
    assert_eq!(app.time(), 199_999);
    assert_eq!(*app.get_table(), blinker());
}

#[test]
fn a_whole_step_moves_the_table_on() {
    let mut app = App::new(blinker());
    app.update(STEP_TIME);
    assert_eq!(app.time(), 0);
    assert_eq!(*app.get_table(), evolve(&blinker()));
}

#[test]
fn the_excess_over_a_step_is_kept() {
    let mut app = App::new(blinker());
    app.update(150_000);
    app.update(70_000);
    assert_eq!(app.time(), 20_000);
    assert_eq!(*app.get_table(), evolve(&blinker()));
}

#[test]
fn one_call_takes_one_step_at_most() {
    let mut app = App::new(blinker());
    app.update(3 * STEP_TIME);
    assert_eq!(app.time(), 2 * STEP_TIME);
    assert_eq!(*app.get_table(), evolve(&blinker()));
    app.update(0);
    assert_eq!(app.time(), STEP_TIME);
    assert_eq!(*app.get_table(), blinker());
}

#[test]
fn short_ticks_that_sum_to_a_step_equal_one_whole_step() {
    let mut split = App::new(blinker());
    let mut generations = 0;
    for _ in 0..4 {
        let before = evolve(split.get_table());
        split.update(50_000);
        if *split.get_table() == before {
            generations += 1;
        }
    }
    let mut whole = App::new(blinker());
    whole.update(STEP_TIME);
    assert_eq!(generations, 1);
    assert_eq!(*split.get_table(), *whole.get_table());
    assert_eq!(split.time(), whole.time());
    assert_eq!(*split.get_table(), evolve(&blinker()));
}

#[test]
fn uneven_short_ticks_from_a_part_filled_account() {
    let mut split = App::new(blinker());
    split.update(120_000);
    let mut whole = App::new(blinker());
    whole.update(120_000);
    for dt in [1, 99_999, 60_000, 40_000] {
        split.update(dt);
    }
    whole.update(STEP_TIME);
    assert_eq!(*split.get_table(), *whole.get_table());
    assert_eq!(split.time(), 120_000);
    assert_eq!(whole.time(), 120_000);
}

#[test]
fn ticks_of_no_time_change_nothing() {
    let mut app = App::new(blinker());
    app.update(123);
    for _ in 0..1000 {
        app.update(0);
    }
    assert_eq!(app.time(), 123);
    assert_eq!(*app.get_table(), blinker());
}

#[test]
fn the_grid_line_flag_survives_a_step() {
    let mut app = App::new(blinker());
    app.update(STEP_TIME);
    assert!(app.view_grid());
}
