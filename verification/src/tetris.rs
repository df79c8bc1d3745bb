//! The simulation driver: owns the current game state, runs the five
//! frame phases in order each tick, and swaps states on transition.

use vstd::prelude::*;

use crate::common::{GamePad, GameUI, PadInput};
use crate::conf::TetrisSettings;
use crate::states::{create_state, GameState, State, StateName};

verus! {

/// The game: its settings and the live state.
pub struct Tetris {
    pub settings: TetrisSettings,
    pub state: GameState,
}

impl Tetris {
    pub open spec fn inv(&self) -> bool {
        &&& self.settings.wf()
        &&& self.state.inv()
    }

    /// A new game starts on the intro screen.
    pub fn new(settings: &TetrisSettings) -> (t: Self)
        requires
            settings.wf(),
        ensures
            t.inv(),
            t.settings == *settings,
            t.state matches GameState::Intro(i) && i.is_fresh(),
    {
        Self {
            settings: *settings,
            state: create_state(StateName::Intro, settings),
        }
    }

    pub fn start_loop(&mut self)
        requires
            old(self).inv(),
        ensures
            final(self).inv(),
            final(self).settings == old(self).settings,
            GameState::start_rel(old(self).state, final(self).state),
    {
        match &mut self.state {
            GameState::Intro(s) => s.start_loop(),
            GameState::Ongoing(s) => s.start_loop(),
        }
    }

    /// Read the pad once and feed that frame of input to the live state.
    pub fn process_input<P: GamePad>(&mut self, pad: &P)
        requires
            old(self).inv(),
        ensures
            final(self).inv(),
            final(self).settings == old(self).settings,
            GameState::input_rel(old(self).state, final(self).state, PadInput::of_pad(pad)),
    {
        let input = PadInput::read(pad);
        match &mut self.state {
            GameState::Intro(s) => s.process_input(input),
            GameState::Ongoing(s) => s.process_input(input),
        }
    }

    pub fn update(&mut self)
        requires
            old(self).inv(),
        ensures
            final(self).inv(),
            final(self).settings == old(self).settings,
            GameState::update_rel(old(self).state, final(self).state),
    {
        match &mut self.state {
            GameState::Intro(s) => s.update(),
            GameState::Ongoing(s) => s.update(),
        }
    }

    pub fn draw<U: GameUI>(&self, ui: &mut U)
        requires
            self.inv(),
    {
        match &self.state {
            GameState::Intro(s) => s.draw(ui),
            GameState::Ongoing(s) => s.draw(ui),
        }
    }

    /// If the live state requested a transition, replace it with a
    /// freshly constructed successor; otherwise keep it as it is.
    pub fn end_loop(&mut self)
        requires
            old(self).inv(),
        ensures
            final(self).inv(),
            final(self).settings == old(self).settings,
            match old(self).state.spec_next_state() {
                Some(StateName::Intro) => final(self).state matches GameState::Intro(i)
                    && i.is_fresh(),
                Some(StateName::Ongoing) => final(self).state matches GameState::Ongoing(o)
                    && o.is_fresh(old(self).settings),
                None => final(self).state == old(self).state,
            },
    {
        let next_state_name = match &self.state {
            GameState::Intro(s) => s.end_loop(),
            GameState::Ongoing(s) => s.end_loop(),
        };
        match next_state_name {
            Some(state_name) => {
                self.state = create_state(state_name, &self.settings);
            },
            None => {},
        }
    }
}

} // verus!
