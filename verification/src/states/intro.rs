//! The intro screen: static artwork spelling the game's title, with a
//! color that cycles every 20 frames until the player presses Start.

use vstd::prelude::*;

use crate::common::{Color, GameUI, PadInput, Position};
use crate::conf::TetrisSettings;
use crate::states::{random_byte, spec_incr, incr_loop_count, State, StateName};

verus! {

/// The fixed brick positions of the title artwork.
pub open spec fn intro_cells() -> Seq<Position> {
    seq![
        // T
        Position { x: 1, y: 1 },
        Position { x: 2, y: 1 },
        Position { x: 3, y: 1 },
        Position { x: 2, y: 2 },
        Position { x: 2, y: 3 },
        Position { x: 2, y: 4 },
        Position { x: 2, y: 5 },
        // E
        Position { x: 5, y: 1 },
        Position { x: 6, y: 1 },
        Position { x: 5, y: 2 },
        Position { x: 5, y: 3 },
        Position { x: 5, y: 4 },
        Position { x: 5, y: 5 },
        Position { x: 6, y: 5 },
        Position { x: 6, y: 3 },
        // t
        Position { x: 9, y: 2 },
        Position { x: 9, y: 3 },
        Position { x: 9, y: 4 },
        Position { x: 9, y: 5 },
        Position { x: 10, y: 5 },
        Position { x: 8, y: 3 },
        Position { x: 10, y: 3 },
        // r
        Position { x: 12, y: 3 },
        Position { x: 12, y: 4 },
        Position { x: 12, y: 5 },
        Position { x: 13, y: 3 },
        // i
        Position { x: 15, y: 1 },
        Position { x: 15, y: 3 },
        Position { x: 15, y: 4 },
        Position { x: 15, y: 5 },
        // s
        Position { x: 18, y: 2 },
        Position { x: 17, y: 2 },
        Position { x: 17, y: 3 },
        Position { x: 18, y: 4 },
        Position { x: 18, y: 5 },
        Position { x: 17, y: 5 },
    ]
}

/// The color the intro cycles to for a byte drawn at random: one of the
/// seven shape colors, never the neutral gray.
pub open spec fn spec_pick_color(n: u8) -> Color {
    let k = n as int % 7;
    if k == 0 { Color::Teal }
    else if k == 1 { Color::Yellow }
    else if k == 2 { Color::Purple }
    else if k == 3 { Color::Blue }
    else if k == 4 { Color::Orange }
    else if k == 5 { Color::Green }
    else { Color::Red }
}

fn color_of_byte(n: u8) -> (c: Color)
    ensures
        c == spec_pick_color(n),
{
    match n % 7 {
        0 => Color::Teal,
        1 => Color::Yellow,
        2 => Color::Purple,
        3 => Color::Blue,
        4 => Color::Orange,
        5 => Color::Green,
        _ => Color::Red,
    }
}

/// One of the seven shape colors, drawn at random.
fn pick_random_color() -> (c: Color)
    ensures
        c != Color::Gray,
        exists|n: u8| c == spec_pick_color(n),
{
    let n = random_byte();
    color_of_byte(n)
}

/// The intro screen's state.
#[derive(Debug)]
pub struct Intro {
    pub loop_count: i32,
    pub bricks: Vec<Position>,
    pub color: Color,
    pub is_started: bool,
}

impl Intro {
    /// A freshly constructed intro screen.
    pub open spec fn is_fresh(&self) -> bool {
        &&& self.loop_count == 0
        &&& self.bricks@ == intro_cells()
        &&& self.color == Color::Gray
        &&& !self.is_started
    }

    pub fn new(_settings: &TetrisSettings) -> (s: Self)
        ensures
            s.is_fresh(),
    {
        let bricks: Vec<Position> = vec![
            Position::new(1, 1),
            Position::new(2, 1),
            Position::new(3, 1),
            Position::new(2, 2),
            Position::new(2, 3),
            Position::new(2, 4),
            Position::new(2, 5),
            Position::new(5, 1),
            Position::new(6, 1),
            Position::new(5, 2),
            Position::new(5, 3),
            Position::new(5, 4),
            Position::new(5, 5),
            Position::new(6, 5),
            Position::new(6, 3),
            Position::new(9, 2),
            Position::new(9, 3),
            Position::new(9, 4),
            Position::new(9, 5),
            Position::new(10, 5),
            Position::new(8, 3),
            Position::new(10, 3),
            Position::new(12, 3),
            Position::new(12, 4),
            Position::new(12, 5),
            Position::new(13, 3),
            Position::new(15, 1),
            Position::new(15, 3),
            Position::new(15, 4),
            Position::new(15, 5),
            Position::new(18, 2),
            Position::new(17, 2),
            Position::new(17, 3),
            Position::new(18, 4),
            Position::new(18, 5),
            Position::new(17, 5),
        ];
        proof {
            assert(bricks@ =~= intro_cells());
        }
        Self { loop_count: 0, bricks, color: Color::Gray, is_started: false }
    }
}

impl State for Intro {
    open spec fn inv(&self) -> bool {
        self.loop_count >= 0
    }

    /// Only the loop counter advances.
    open spec fn start_rel(pre: Self, post: Self) -> bool {
        &&& post.loop_count as int == spec_incr(pre.loop_count as int)
        &&& post.bricks@ == pre.bricks@
        &&& post.color == pre.color
        &&& post.is_started == pre.is_started
    }

    /// Start arms the started flag; nothing else reacts to input.
    open spec fn input_rel(pre: Self, post: Self, input: PadInput) -> bool {
        &&& post.is_started == (pre.is_started || input.start)
        &&& post.loop_count == pre.loop_count
        &&& post.bricks@ == pre.bricks@
        &&& post.color == pre.color
    }

    /// Every 20th frame the color cycles to a random shape color.
    open spec fn update_rel(pre: Self, post: Self) -> bool {
        &&& if pre.loop_count as int % 20 == 0 {
            post.color != Color::Gray && exists|n: u8| post.color == spec_pick_color(n)
        } else {
            post.color == pre.color
        }
        &&& post.loop_count == pre.loop_count
        &&& post.bricks@ == pre.bricks@
        &&& post.is_started == pre.is_started
    }

    /// Hand over to the game exactly when the player has started it.
    open spec fn next_state(&self) -> Option<StateName> {
        if self.is_started {
            Some(StateName::Ongoing)
        } else {
            None
        }
    }

    fn start_loop(&mut self) {
        self.loop_count = incr_loop_count(self.loop_count);
    }

    fn process_input(&mut self, input: PadInput) {
        if input.start {
            self.is_started = true;
        }
    }

    fn update(&mut self) {
        if self.loop_count % 20 == 0 {
            self.color = pick_random_color();
        }
    }

    fn draw<U: GameUI>(&self, ui: &mut U) {
        let mut i: usize = 0;
        while i < self.bricks.len()
            decreases self.bricks.len() - i,
        {
            ui.draw_brick(self.bricks[i], self.color);
            i = i + 1;
        }
        ui.draw_text(Position::new(5, 8), "Start Game");
    }

    fn end_loop(&self) -> (r: Option<StateName>) {
        if self.is_started {
            Some(StateName::Ongoing)
        } else {
            None
        }
    }
}

} // verus!
