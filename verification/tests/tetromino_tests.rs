use tetris_game::playfield::PlayField;
use tetris_game::tetromino::{Shape, Tetromino};
use tetris_game::{Color, Position};

fn all_shapes() -> Vec<Shape> {
    vec![Shape::I, Shape::O, Shape::T, Shape::J, Shape::L, Shape::S, Shape::Z]
}

fn brick_pairs(bricks: &[Position]) -> Vec<(i16, i16)> {
    bricks.iter().map(|p| p.xy()).collect()
}

fn sorted_pairs(bricks: &[Position]) -> Vec<(i16, i16)> {
    let mut v = brick_pairs(bricks);
    v.sort();
    v
}

#[test]
fn four_distinct_cells_at_every_rotation() {
    for shape in all_shapes() {
        for degree in [0i16, 90, 180, 270] {
            let cells = shape.get_bricks(&Position::new(10, 10), degree);
            assert_eq!(cells.len(), 4);
            for i in 0..4 {
                for j in (i + 1)..4 {
                    assert_ne!(cells[i].xy(), cells[j].xy());
                }
            }
        }
    }
}

#[test]
fn o_shape_ignores_rotation() {
    let anchor = Position::new(3, 7);
    let at_zero = Shape::O.get_bricks(&anchor, 0);
    for degree in [90i16, 180, 270] {
        assert_eq!(
            brick_pairs(&Shape::O.get_bricks(&anchor, degree)),
            brick_pairs(&at_zero)
        );
    }
    assert_eq!(
        sorted_pairs(&at_zero),
        vec![(3, 7), (3, 8), (4, 7), (4, 8)]
    );
}

#[test]
fn i_shape_alternates_between_runs() {
    let anchor = Position::new(3, 4);
    for degree in [0i16, 180] {
        assert_eq!(
            brick_pairs(&Shape::I.get_bricks(&anchor, degree)),
            vec![(3, 4), (4, 4), (5, 4), (6, 4)]
        );
    }
    for degree in [90i16, 270] {
        assert_eq!(
            brick_pairs(&Shape::I.get_bricks(&anchor, degree)),
            vec![(3, 4), (3, 5), (3, 6), (3, 7)]
        );
    }
}

#[test]
fn shape_colors_are_fixed() {
    assert_eq!(Shape::I.color(), Color::Teal);
    assert_eq!(Shape::O.color(), Color::Yellow);
    assert_eq!(Shape::T.color(), Color::Purple);
    assert_eq!(Shape::J.color(), Color::Blue);
    assert_eq!(Shape::L.color(), Color::Orange);
    assert_eq!(Shape::S.color(), Color::Green);
    assert_eq!(Shape::Z.color(), Color::Red);
}

#[test]
fn pick_cycles_through_the_seven_shapes() {
    assert_eq!(Shape::pick(0), Shape::I);
    assert_eq!(Shape::pick(1), Shape::O);
    assert_eq!(Shape::pick(2), Shape::T);
    assert_eq!(Shape::pick(3), Shape::J);
    assert_eq!(Shape::pick(4), Shape::L);
    assert_eq!(Shape::pick(5), Shape::S);
    assert_eq!(Shape::pick(6), Shape::Z);
    assert_eq!(Shape::pick(7), Shape::I);
    assert_eq!(Shape::pick(255), Shape::J);
}

#[test]
fn move_towards_never_moves_up() {
    let field = PlayField::new(10, 20);
    let mut piece = Tetromino::new(Shape::O, Position::new(4, 5));
    let before = brick_pairs(piece.bricks());

    // an upward request is clamped to no vertical movement
    let moved = piece.move_towards((0, -1), &field);
    assert!(moved);
    assert_eq!(brick_pairs(piece.bricks()), before);

    // sideways with an upward component: only the x changes
    let moved = piece.move_towards((1, -5), &field);
    assert!(moved);
    let expected: Vec<(i16, i16)> =
        before.iter().map(|&(x, y)| (x + 1, y)).collect();
    assert_eq!(brick_pairs(piece.bricks()), expected);

    // a plain downward move still works
    let moved = piece.move_towards((0, 2), &field);
    assert!(moved);
    let expected: Vec<(i16, i16)> =
        expected.iter().map(|&(x, y)| (x, y + 2)).collect();
    assert_eq!(brick_pairs(piece.bricks()), expected);
}

#[test]
fn move_towards_fails_against_walls_and_bricks() {
    let mut field = PlayField::new(10, 20);
    field.fill_space(&[Position::new(2, 6), Position::new(2, 7)], Color::Red);
    let mut piece = Tetromino::new(Shape::O, Position::new(0, 5));
    let before = brick_pairs(piece.bricks());

    // against the left wall
    assert!(!piece.move_towards((-1, 0), &field));
    assert_eq!(brick_pairs(piece.bricks()), before);
    // against the settled bricks on the right
    assert!(!piece.move_towards((1, 1), &field));
    assert_eq!(brick_pairs(piece.bricks()), before);
}

#[test]
fn fall_to_bottom_is_idempotent() {
    let mut field = PlayField::new(10, 20);
    field.fill_space(&[Position::new(4, 18)], Color::Red);
    let mut piece = Tetromino::new(Shape::O, Position::new(4, 0));

    piece.fall_to_bottom(&field);
    let resting = brick_pairs(piece.bricks());
    // it rests right above the settled brick
    assert_eq!(sorted_pairs(piece.bricks()), vec![(4, 16), (4, 17), (5, 16), (5, 17)]);

    piece.fall_to_bottom(&field);
    assert_eq!(brick_pairs(piece.bricks()), resting);
}

#[test]
fn rotate_right_four_times_restores_the_piece() {
    let field = PlayField::new(10, 20);
    for shape in all_shapes() {
        let mut piece = Tetromino::new(shape, Position::new(4, 5));
        let before = brick_pairs(piece.bricks());
        for _ in 0..4 {
            assert!(piece.rotate_right(&field));
        }
        assert_eq!(brick_pairs(piece.bricks()), before);
    }
}

#[test]
fn rotation_fails_without_room() {
    let field = PlayField::new(10, 20);
    // an I piece lying in the bottom row has no room to stand up
    let mut piece = Tetromino::new(Shape::I, Position::new(3, 0));
    piece.fall_to_bottom(&field);
    assert_eq!(
        brick_pairs(piece.bricks()),
        vec![(3, 19), (4, 19), (5, 19), (6, 19)]
    );
    let before = brick_pairs(piece.bricks());
    assert!(!piece.rotate_right(&field));
    assert_eq!(brick_pairs(piece.bricks()), before);
}
