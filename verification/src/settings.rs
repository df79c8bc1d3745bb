//! The full configuration of a game process: the core rules plus the
//! window, brick and pad parameters that a rendering adapter consumes.
//! Loading these from a file or the environment is the adapter's job;
//! the computation on them lives here.

use vstd::prelude::*;

use crate::conf::TetrisSettings;

verus! {

/// Sizes, in pixels, used by the rendering adapter.
#[derive(Debug, Clone)]
pub struct UISettings {
    pub brick_size: u8,
    pub brick_shadow: u8,
    pub font_size: u8,
}

impl Default for UISettings {
    fn default() -> (s: Self)
        ensures
            s.brick_size == 40,
            s.brick_shadow == 3,
            s.font_size == 32,
    {
        Self { brick_size: 40, brick_shadow: 3, font_size: 32 }
    }
}

/// Parameters of the input adapter.
#[derive(Debug, Clone)]
pub struct GamePadSettings {
    pub dummy: u8,
}

impl Default for GamePadSettings {
    fn default() -> (s: Self)
        ensures
            s.dummy == 42,
    {
        Self { dummy: 42 }
    }
}

/// Everything a game process is configured with.
#[derive(Debug, Clone)]
pub struct Settings {
    pub tetris: TetrisSettings,
    pub ui: UISettings,
    pub game_pad: GamePadSettings,
    /// Interval in millis between game loops.
    pub loop_interval_millis: u8,
}

impl Settings {
    /// Compute the window size as (width, height) given the block size.
    /// The window holds 2 play fields, each with its surrounding
    /// three-sided wall (without the upper side) one block thick.
    pub fn window_size(&self) -> (r: (i32, i32))
        ensures
            r.0 == (self.tetris.play_field_width as int + 2) * 2 * self.ui.brick_size as int,
            r.1 == (self.tetris.play_field_height as int + 1) * self.ui.brick_size as int,
    {
        let brick_size = self.ui.brick_size as i32;
        // Left side and right side wall for each play field; 2 play fields.
        let n_cols = (self.tetris.play_field_width as i32 + 2) * 2;
        // Bottom side wall for the play fields.
        let n_rows = self.tetris.play_field_height as i32 + 1;
        proof {
            assert(n_cols * brick_size <= 514 * 255 && n_rows * brick_size <= 256 * 255
                && n_cols * brick_size >= 0 && n_rows * brick_size >= 0) by (nonlinear_arith)
                requires
                    0 <= n_cols <= 514,
                    0 <= n_rows <= 256,
                    0 <= brick_size <= 255,
            ;
        }
        (n_cols * brick_size, n_rows * brick_size)
    }
}

impl Default for Settings {
    fn default() -> (s: Self)
        ensures
            s.tetris.wf(),
            s.loop_interval_millis == 25,
    {
        Self {
            tetris: TetrisSettings::default(),
            ui: UISettings::default(),
            game_pad: GamePadSettings::default(),
            loop_interval_millis: 25,
        }
    }
}

} // verus!
