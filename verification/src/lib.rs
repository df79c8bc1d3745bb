pub mod common;
pub mod conf;
pub mod playfield;
pub mod settings;
pub mod states;
pub mod tetris;
pub mod tetromino;

pub use common::{Button, Color, GamePad, GameUI, PadInput, Position};
pub use conf::TetrisSettings;
pub use tetris::Tetris;
