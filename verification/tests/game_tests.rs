use tetris_game::common::chars_to_string;
use tetris_game::states::ongoing::Ongoing;
use tetris_game::states::{GameState, State};
use tetris_game::tetromino::{Shape, Tetromino};
use tetris_game::{Button, Color, GamePad, PadInput, Position, Tetris, TetrisSettings};

fn quiet_input() -> PadInput {
    PadInput {
        direction: (0, 0),
        a: false,
        b: false,
        select: false,
        start: false,
        cheat: None,
    }
}

fn fill_row_except(ongoing: &mut Ongoing, y: i16, holes: &[i16]) {
    let positions: Vec<Position> = (0..ongoing.play_field.width())
        .filter(|x| !holes.contains(x))
        .map(|x| Position::new(x, y))
        .collect();
    ongoing.play_field.fill_space(&positions, Color::Gray);
}

fn chars(s: &str) -> Vec<char> {
    s.chars().collect()
}

#[test]
fn locking_one_row_scores_the_first_table_entry() {
    let settings = TetrisSettings::default();
    let mut ongoing = Ongoing::new(&settings);
    // bottom row complete except where a lying I piece will land
    fill_row_except(&mut ongoing, 19, &[4, 5, 6, 7]);
    ongoing.active_tetromino = Some(Tetromino::new(Shape::I, Position::new(4, 19)));

    ongoing.update();

    assert!(ongoing.active_tetromino.is_none());
    assert_eq!(ongoing.score, 10);
    // the cleared bottom row leaves the field empty again
    assert!(ongoing.play_field.space().is_empty());
}

#[test]
fn locking_two_rows_scores_the_second_table_entry() {
    let settings = TetrisSettings::default();
    let mut ongoing = Ongoing::new(&settings);
    fill_row_except(&mut ongoing, 18, &[4, 5]);
    fill_row_except(&mut ongoing, 19, &[4, 5]);
    ongoing.active_tetromino = Some(Tetromino::new(Shape::O, Position::new(4, 18)));

    ongoing.update();

    assert!(ongoing.active_tetromino.is_none());
    assert_eq!(ongoing.score, 30);
    assert!(ongoing.play_field.space().is_empty());
}

#[test]
fn locking_without_a_complete_row_scores_nothing() {
    let settings = TetrisSettings::default();
    let mut ongoing = Ongoing::new(&settings);
    ongoing.active_tetromino = Some(Tetromino::new(Shape::O, Position::new(0, 18)));

    ongoing.update();

    assert!(ongoing.active_tetromino.is_none());
    assert_eq!(ongoing.score, 0);
    assert_eq!(ongoing.play_field.space().len(), 4);
}

#[test]
fn fall_pace_shrinks_with_level_within_bounds() {
    let settings = TetrisSettings::default();
    let mut ongoing = Ongoing::new(&settings);

    ongoing.score = 0;
    assert_eq!(ongoing.fall_pace(), 20); // the slowest bound at level 0

    let mut last_pace = ongoing.fall_pace();
    for level in 0u32..300 {
        ongoing.score = level * settings.score_per_level;
        let pace = ongoing.fall_pace();
        assert!(pace <= last_pace);
        assert!(pace >= settings.fall_pace_fastest);
        assert!(pace <= settings.fall_pace_slowest);
        last_pace = pace;
    }
    assert_eq!(last_pace, 3); // floored at the fastest bound
}

#[test]
fn cheat_highwaytohell_adds_500_hungup_resets() {
    let settings = TetrisSettings::default();
    let mut ongoing = Ongoing::new(&settings);

    ongoing.score = 123;
    ongoing.cheat(&chars("highwaytohell"));
    assert_eq!(ongoing.score, 623);
    ongoing.cheat(&chars("highwaytohell"));
    assert_eq!(ongoing.score, 1123);

    ongoing.cheat(&chars("hungup"));
    assert_eq!(ongoing.score, 0);
}

#[test]
fn cheat_paintitblack_clears_and_obladi_drops_bottom_rows() {
    let settings = TetrisSettings::default();
    let mut ongoing = Ongoing::new(&settings);
    fill_row_except(&mut ongoing, 19, &[0]);
    fill_row_except(&mut ongoing, 18, &[5]);
    ongoing.play_field.fill_space(&[Position::new(2, 10)], Color::Teal);

    // drop the bottom row: the rest falls by one
    ongoing.cheat(&chars("obladi"));
    let space: std::collections::HashMap<Position, Color> =
        ongoing.play_field.space().into_iter().collect();
    assert_eq!(space.get(&Position::new(2, 11)), Some(&Color::Teal));
    assert_eq!(space.len(), 10); // the old row 18 (9 cells) plus the teal cell

    // drop the bottom two rows
    ongoing.cheat(&chars("oblada"));
    let space: std::collections::HashMap<Position, Color> =
        ongoing.play_field.space().into_iter().collect();
    assert_eq!(space.len(), 1);
    assert_eq!(space.get(&Position::new(2, 13)), Some(&Color::Teal));

    // clear everything
    ongoing.cheat(&chars("paintitblack"));
    assert!(ongoing.play_field.space().is_empty());
}

#[test]
fn cheat_solongmarianne_queues_an_i_piece() {
    let settings = TetrisSettings::default();
    let mut ongoing = Ongoing::new(&settings);
    ongoing.cheat(&chars("solongmarianne"));
    assert_eq!(ongoing.next_tetromino.as_ref().map(|t| t.shape()), Some(Shape::I));
}

#[test]
fn unknown_or_disabled_cheats_do_nothing() {
    let mut settings = TetrisSettings::default();
    let mut ongoing = Ongoing::new(&settings);
    ongoing.score = 42;
    ongoing.cheat(&chars("stairwaytoheaven"));
    assert_eq!(ongoing.score, 42);

    settings.enable_cheating = false;
    let mut ongoing = Ongoing::new(&settings);
    ongoing.score = 42;
    ongoing.cheat(&chars("highwaytohell"));
    assert_eq!(ongoing.score, 42);
}

#[test]
fn typed_cheat_code_applies_on_start() {
    let settings = TetrisSettings::default();
    let mut ongoing = Ongoing::new(&settings);
    ongoing.score = 77;

    for c in "hungup".chars() {
        let mut input = quiet_input();
        input.cheat = Some(c);
        ongoing.process_input(input);
    }
    assert_eq!(chars_to_string(&ongoing.cheat_codes), "hungup");

    let mut input = quiet_input();
    input.start = true;
    ongoing.process_input(input);

    assert_eq!(ongoing.score, 0);
    assert!(ongoing.cheat_codes.is_empty());
}

#[test]
fn cheat_buffer_is_bounded_at_20() {
    let settings = TetrisSettings::default();
    let mut ongoing = Ongoing::new(&settings);
    for _ in 0..30 {
        let mut input = quiet_input();
        input.cheat = Some('x');
        ongoing.process_input(input);
    }
    assert_eq!(ongoing.cheat_codes.len(), 20);
}

#[test]
fn blocked_spawn_fades_the_field_and_ends_the_game() {
    let settings = TetrisSettings::default();
    let mut ongoing = Ongoing::new(&settings);
    // every spawn cell is taken: the four top rows are full
    for y in 0..4 {
        fill_row_except(&mut ongoing, y, &[]);
    }
    ongoing.play_field.fill_space(&[Position::new(0, 10)], Color::Red);

    ongoing.start_loop();

    assert!(ongoing.is_game_over);
    assert!(ongoing.active_tetromino.is_none());
    for (_, color) in ongoing.play_field.space() {
        assert_eq!(color, Color::Gray);
    }

    // and the field no longer changes until a restart
    let before = ongoing.play_field.space();
    ongoing.start_loop();
    ongoing.update();
    assert_eq!(ongoing.play_field.space(), before);
    assert!(ongoing.is_game_over);
}

#[test]
fn select_toggles_debug_even_after_game_over() {
    let settings = TetrisSettings::default();
    let mut ongoing = Ongoing::new(&settings);
    ongoing.is_game_over = true;
    let mut input = quiet_input();
    input.select = true;
    ongoing.process_input(input);
    assert!(ongoing.is_debug_enabled);
    ongoing.process_input(input);
    assert!(!ongoing.is_debug_enabled);
}

struct ScriptedPad {
    direction: (i16, i16),
    a: bool,
    b: bool,
    select: bool,
    start: bool,
    cheat: Option<char>,
}

impl ScriptedPad {
    fn idle() -> Self {
        Self {
            direction: (0, 0),
            a: false,
            b: false,
            select: false,
            start: false,
            cheat: None,
        }
    }

    fn pressing_start() -> Self {
        let mut pad = Self::idle();
        pad.start = true;
        pad
    }
}

impl GamePad for ScriptedPad {
    fn spec_direction(&self) -> (i16, i16) {
        self.direction
    }

    fn spec_pressed(&self, button: Button) -> bool {
        self.is_pressed(button)
    }

    fn spec_cheat_code(&self) -> Option<char> {
        self.cheat
    }

    fn direction(&self) -> (i16, i16) {
        self.direction
    }

    fn is_pressed(&self, button: Button) -> bool {
        match button {
            Button::A => self.a,
            Button::B => self.b,
            Button::Select => self.select,
            Button::Start => self.start,
            _ => false,
        }
    }

    fn cheat_code(&self) -> Option<char> {
        self.cheat
    }
}

#[test]
fn restart_after_game_over_yields_a_fresh_session() {
    let settings = TetrisSettings::default();
    let mut tetris = Tetris::new(&settings);

    // the game begins on the intro screen
    assert!(matches!(tetris.state, GameState::Intro(_)));

    // Start on the intro hands over to a fresh session
    tetris.start_loop();
    tetris.process_input(&ScriptedPad::pressing_start());
    tetris.update();
    tetris.end_loop();
    match &tetris.state {
        GameState::Ongoing(o) => {
            assert_eq!(o.score, 0);
            assert_eq!(o.loop_count, 0);
            assert!(o.play_field.space().is_empty());
            assert!(o.active_tetromino.is_none());
            assert!(o.next_tetromino.is_none());
        },
        GameState::Intro(_) => panic!("expected the session to begin"),
    }

    // force a game over, leave some state behind, then restart
    match &mut tetris.state {
        GameState::Ongoing(o) => {
            o.score = 999;
            o.is_game_over = true;
            o.play_field
                .fill_space(&[Position::new(0, 0)], Color::Gray);
        },
        GameState::Intro(_) => unreachable!(),
    }
    tetris.start_loop();
    tetris.process_input(&ScriptedPad::pressing_start());
    tetris.update();
    tetris.end_loop();
    assert!(matches!(tetris.state, GameState::Intro(_)));

    // starting again constructs a session with no leakage from the last
    tetris.start_loop();
    tetris.process_input(&ScriptedPad::pressing_start());
    tetris.update();
    tetris.end_loop();
    match &tetris.state {
        GameState::Ongoing(o) => {
            assert_eq!(o.score, 0);
            assert_eq!(o.loop_count, 0);
            assert!(o.play_field.space().is_empty());
            assert!(o.active_tetromino.is_none());
            assert!(o.next_tetromino.is_none());
            assert!(!o.is_game_over);
            assert!(!o.is_restarted);
        },
        GameState::Intro(_) => panic!("expected a fresh session"),
    }
}

#[test]
fn a_session_spawns_and_drops_pieces() {
    let settings = TetrisSettings::default();
    let mut tetris = Tetris::new(&settings);
    tetris.start_loop();
    tetris.process_input(&ScriptedPad::pressing_start());
    tetris.end_loop();

    // first tick of the session: a piece spawns
    tetris.start_loop();
    match &tetris.state {
        GameState::Ongoing(o) => {
            assert!(o.active_tetromino.is_some());
            assert!(o.next_tetromino.is_some());
        },
        GameState::Intro(_) => panic!("expected the session to be live"),
    }

    // a hard drop followed by a fall frame locks the piece into the field
    let mut drop_pad = ScriptedPad::idle();
    drop_pad.b = true;
    tetris.process_input(&drop_pad);
    match &mut tetris.state {
        GameState::Ongoing(o) => {
            // make this a fall frame so the lock happens now
            o.loop_count = 0;
        },
        GameState::Intro(_) => unreachable!(),
    }
    tetris.update();
    match &tetris.state {
        GameState::Ongoing(o) => {
            assert!(o.active_tetromino.is_none());
            assert_eq!(o.play_field.space().len(), 4);
        },
        GameState::Intro(_) => panic!("expected the session to be live"),
    }
    tetris.end_loop();
}

#[test]
fn chars_to_string_joins_the_buffer() {
    assert_eq!(chars_to_string(&vec!['a', 'b', 'c']), "abc");
    assert_eq!(chars_to_string(&Vec::new()), "");
}
