use tetris_game::settings::Settings;
use tetris_game::states::intro::Intro;
use tetris_game::states::{State, StateName};
use tetris_game::{Color, PadInput, TetrisSettings};

fn quiet_input() -> PadInput {
    PadInput {
        direction: (0, 0),
        a: false,
        b: false,
        select: false,
        start: false,
        cheat: None,
    }
}

#[test]
fn default_settings_match_the_documented_values() {
    let s = TetrisSettings::default();
    assert_eq!(s.play_field_width, 10);
    assert_eq!(s.play_field_height, 20);
    assert_eq!(s.scores_for_rows_destroyed, [10, 30, 50, 100]);
    assert_eq!(s.score_per_level, 200);
    assert_eq!(s.fall_pace_slowest, 20);
    assert_eq!(s.fall_pace_fastest, 3);
    assert!(s.enable_cheating);
}

#[test]
fn window_size_fits_two_walled_fields() {
    let s = Settings::default();
    // (10 + 2) columns per field, two fields, 40 pixels per brick;
    // (20 + 1) rows with the bottom wall.
    assert_eq!(s.window_size(), (960, 840));
}

#[test]
fn intro_starts_gray_and_cycles_color_every_20_frames() {
    let settings = TetrisSettings::default();
    let mut intro = Intro::new(&settings);
    assert_eq!(intro.color, Color::Gray);
    assert_eq!(intro.bricks.len(), 36);

    // frames 1..=19: the color stays gray
    for _ in 0..19 {
        intro.start_loop();
        intro.process_input(quiet_input());
        intro.update();
        assert_eq!(intro.color, Color::Gray);
        assert_eq!(intro.end_loop(), None);
    }
    // frame 20: the color cycles to a shape color
    intro.start_loop();
    intro.update();
    assert_ne!(intro.color, Color::Gray);
}

#[test]
fn intro_hands_over_exactly_when_started() {
    let settings = TetrisSettings::default();
    let mut intro = Intro::new(&settings);
    assert_eq!(intro.end_loop(), None);

    let mut input = quiet_input();
    input.start = true;
    intro.process_input(input);
    assert_eq!(intro.end_loop(), Some(StateName::Ongoing));
}
