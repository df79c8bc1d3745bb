use std::collections::HashMap;

use tetris_game::playfield::PlayField;
use tetris_game::tetromino::GameWorld;
use tetris_game::{Color, Position};

fn space_map(field: &PlayField) -> HashMap<Position, Color> {
    field.space().into_iter().collect()
}

#[test]
fn destroy_completed_rows() {
    let mut field = PlayField::new(10, 20);
    let n = field.height() - 6;

    let get_row = |xs: Vec<i16>, y: i16| -> Vec<Position> {
        xs.into_iter().map(|x| Position::new(x, y)).collect()
    };
    let get_complete_row =
        |y: i16| -> Vec<Position> { get_row((0..field.width()).collect(), y) };

    // row N + 0: not complete
    // row N + 1: complete
    // row N + 2: complete
    // row N + 3: incomplete
    // row N + 4: complete
    // row N + 5: incomplete
    let positions_at_n0 = get_row(vec![1, 2, 4], n);
    let positions_at_n1 = get_complete_row(n + 1);
    let positions_at_n2 = get_complete_row(n + 2);
    let positions_at_n3 = get_row(vec![3], n + 3);
    let positions_at_n4 = get_complete_row(n + 4);
    let positions_at_n5 = get_row(vec![6, 7], n + 5);
    field.fill_space(&positions_at_n0, Color::Teal);
    field.fill_space(&positions_at_n1, Color::Yellow);
    field.fill_space(&positions_at_n2, Color::Purple);
    field.fill_space(&positions_at_n3, Color::Blue);
    field.fill_space(&positions_at_n4, Color::Orange);
    field.fill_space(&positions_at_n5, Color::Green);

    field.destroy_completed_rows();

    // row N + 0 falls by +3 rows
    // row N + 3 falls by +1 rows
    // row N + 5 stays still
    let fall_by_rows = |n_rows: i16| (0, n_rows);
    let expected_space: HashMap<Position, Color> = [
        positions_at_n0
            .iter()
            .map(|pos| (pos.updated(fall_by_rows(3)), Color::Teal))
            .collect::<Vec<_>>(),
        positions_at_n3
            .iter()
            .map(|pos| (pos.updated(fall_by_rows(1)), Color::Blue))
            .collect::<Vec<_>>(),
        positions_at_n5
            .iter()
            .map(|pos| (pos.updated(fall_by_rows(0)), Color::Green))
            .collect::<Vec<_>>(),
    ]
    .concat()
    .into_iter()
    .collect();
    assert_eq!(space_map(&field), expected_space);
}

#[test]
fn fade_to_gray() {
    let mut field = PlayField::new(10, 20);
    let positions = vec![
        Position::new(0, 0),
        Position::new(1, 1),
        Position::new(2, 2),
    ];
    field.fill_space(&positions, Color::Teal);

    field.fade_to_gray();

    let expected_space: HashMap<Position, Color> =
        positions.iter().map(|pos| (*pos, Color::Gray)).collect();
    assert_eq!(space_map(&field), expected_space);
}

#[test]
fn is_free_rejects_out_of_bounds_and_occupied() {
    let mut field = PlayField::new(10, 20);
    field.fill_space(&[Position::new(4, 7)], Color::Red);

    assert!(!field.is_free(&[Position::new(-1, 0)]));
    assert!(!field.is_free(&[Position::new(10, 0)]));
    assert!(!field.is_free(&[Position::new(0, -1)]));
    assert!(!field.is_free(&[Position::new(0, 20)]));
    assert!(!field.is_free(&[Position::new(4, 7)]));
    assert!(!field.is_free(&[Position::new(0, 0), Position::new(4, 7)]));
    assert!(field.is_free(&[Position::new(0, 0), Position::new(9, 19)]));
    // an empty position list is vacuously free
    assert!(field.is_free(&[]));
}

#[test]
fn single_full_row_clears_and_shifts_one() {
    let mut field = PlayField::new(10, 20);
    let full_row: Vec<Position> = (0..10).map(|x| Position::new(x, 15)).collect();
    field.fill_space(&full_row, Color::Teal);
    let sparse: Vec<Position> = vec![
        Position::new(2, 14),
        Position::new(5, 14),
        Position::new(7, 14),
    ];
    field.fill_space(&sparse, Color::Blue);

    let n = field.destroy_completed_rows();
    assert_eq!(n, 1);

    let expected: HashMap<Position, Color> = vec![
        (Position::new(2, 15), Color::Blue),
        (Position::new(5, 15), Color::Blue),
        (Position::new(7, 15), Color::Blue),
    ]
    .into_iter()
    .collect();
    assert_eq!(space_map(&field), expected);
}

#[test]
fn simultaneous_clears_shift_by_rows_below() {
    let mut field = PlayField::new(10, 20);
    // two complete rows at the bottom, one surviving cell well above them
    // and one surviving cell between nothing (all survivors are above).
    let full_18: Vec<Position> = (0..10).map(|x| Position::new(x, 18)).collect();
    let full_19: Vec<Position> = (0..10).map(|x| Position::new(x, 19)).collect();
    field.fill_space(&full_18, Color::Yellow);
    field.fill_space(&full_19, Color::Yellow);
    field.fill_space(&[Position::new(0, 10)], Color::Teal);
    field.fill_space(&[Position::new(3, 17)], Color::Green);

    let n = field.destroy_completed_rows();
    assert_eq!(n, 2);

    let expected: HashMap<Position, Color> = vec![
        (Position::new(0, 12), Color::Teal),
        (Position::new(3, 19), Color::Green),
    ]
    .into_iter()
    .collect();
    assert_eq!(space_map(&field), expected);
}

#[test]
fn destroy_rows_clears_even_incomplete_rows() {
    let mut field = PlayField::new(10, 20);
    field.fill_space(&[Position::new(1, 19), Position::new(2, 19)], Color::Red);
    field.fill_space(&[Position::new(4, 18)], Color::Green);

    field.destroy_rows(&[19]);

    let expected: HashMap<Position, Color> =
        vec![(Position::new(4, 19), Color::Green)].into_iter().collect();
    assert_eq!(space_map(&field), expected);
}

#[test]
fn destroy_no_rows_is_a_no_op() {
    let mut field = PlayField::new(10, 20);
    field.fill_space(&[Position::new(1, 19)], Color::Red);
    let before = space_map(&field);
    field.destroy_rows(&[]);
    assert_eq!(space_map(&field), before);
    let n = field.destroy_completed_rows();
    assert_eq!(n, 0);
    assert_eq!(space_map(&field), before);
}

#[test]
fn clear_empties_the_field() {
    let mut field = PlayField::new(10, 20);
    field.fill_space(&[Position::new(1, 1), Position::new(2, 2)], Color::Red);
    field.clear();
    assert!(space_map(&field).is_empty());
    assert_eq!(field.width(), 10);
    assert_eq!(field.height(), 20);
}

#[test]
fn fill_space_rejects_out_of_bounds_cells() {
    let mut field = PlayField::new(10, 20);
    field.fill_space(
        &[Position::new(-1, 5), Position::new(3, 25), Position::new(2, 2)],
        Color::Purple,
    );
    let expected: HashMap<Position, Color> =
        vec![(Position::new(2, 2), Color::Purple)].into_iter().collect();
    assert_eq!(space_map(&field), expected);
}
