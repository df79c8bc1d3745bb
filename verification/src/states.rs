//! The game's state machine: the per-frame protocol every state follows,
//! the names states are requested by, and the two states themselves.

use vstd::prelude::*;

use crate::common::{GameUI, PadInput};
use crate::conf::TetrisSettings;
use crate::states::intro::Intro;
use crate::states::ongoing::Ongoing;

verus! {

/// The names by which a state requests its successor.
#[derive(Debug, Clone, Copy, PartialEq, Eq, Structural)]
pub enum StateName {
    Intro,
    Ongoing,
}

/// The five-phase per-tick protocol of a game state. Each implementation
/// pins its transitions down with its own relation: the driver runs the
/// phases in order and swaps states when `end_loop` requests one.
pub trait State: Sized {
    /// The state's internal invariant.
    spec fn inv(&self) -> bool;

    /// How `start_loop` transforms the state.
    spec fn start_rel(pre: Self, post: Self) -> bool;

    /// How `process_input` transforms the state under one frame of input.
    spec fn input_rel(pre: Self, post: Self, input: PadInput) -> bool;

    /// How `update` transforms the state.
    spec fn update_rel(pre: Self, post: Self) -> bool;

    /// The transition `end_loop` requests, if any.
    spec fn next_state(&self) -> Option<StateName>;

    fn start_loop(&mut self)
        requires
            old(self).inv(),
        ensures
            final(self).inv(),
            Self::start_rel(*old(self), *final(self)),
    ;

    fn process_input(&mut self, input: PadInput)
        requires
            old(self).inv(),
            input.wf(),
        ensures
            final(self).inv(),
            Self::input_rel(*old(self), *final(self), input),
    ;

    fn update(&mut self)
        requires
            old(self).inv(),
        ensures
            final(self).inv(),
            Self::update_rel(*old(self), *final(self)),
    ;

    fn draw<U: GameUI>(&self, ui: &mut U)
        requires
            self.inv(),
    ;

    fn end_loop(&self) -> (r: Option<StateName>)
        requires
            self.inv(),
        ensures
            r == self.next_state(),
    ;
}

/// The increment used for loop counters: starts over at zero instead of
/// overflowing, so a session can tick forever and the counter stays
/// non-negative.
pub open spec fn spec_incr(x: int) -> int {
    if x >= i32::MAX {
        0
    } else {
        x + 1
    }
}

/// One step of a loop counter.
pub fn incr_loop_count(x: i32) -> (r: i32)
    ensures
        r as int == spec_incr(x as int),
{
    if x == i32::MAX {
        0
    } else {
        x + 1
    }
}

/// Relies on `rand::random`: a byte drawn from the process-wide generator.
/// Nothing is assumed about its value.
#[verifier::external_body]
pub(crate) fn random_byte() -> u8 {
    rand::random()
}

/// The driver's current state: exactly one is live at a time and it is
/// replaced wholesale on a transition.
pub enum GameState {
    Intro(Intro),
    Ongoing(Ongoing),
}

impl GameState {
    pub open spec fn inv(&self) -> bool {
        match self {
            GameState::Intro(s) => s.inv(),
            GameState::Ongoing(s) => Ongoing::inv(s),
        }
    }

    /// The `start_loop` transition of whichever state is live; the state's
    /// kind never changes within a tick.
    pub open spec fn start_rel(pre: GameState, post: GameState) -> bool {
        match pre {
            GameState::Intro(a) => post matches GameState::Intro(b) && Intro::start_rel(a, b),
            GameState::Ongoing(a) => post matches GameState::Ongoing(b)
                && Ongoing::start_rel(a, b),
        }
    }

    /// The `process_input` transition of whichever state is live.
    pub open spec fn input_rel(pre: GameState, post: GameState, input: PadInput) -> bool {
        match pre {
            GameState::Intro(a) => post matches GameState::Intro(b)
                && Intro::input_rel(a, b, input),
            GameState::Ongoing(a) => post matches GameState::Ongoing(b)
                && Ongoing::input_rel(a, b, input),
        }
    }

    /// The `update` transition of whichever state is live.
    pub open spec fn update_rel(pre: GameState, post: GameState) -> bool {
        match pre {
            GameState::Intro(a) => post matches GameState::Intro(b) && Intro::update_rel(a, b),
            GameState::Ongoing(a) => post matches GameState::Ongoing(b)
                && Ongoing::update_rel(a, b),
        }
    }

    /// The transition the live state requests at the end of a tick.
    pub open spec fn spec_next_state(&self) -> Option<StateName> {
        match self {
            GameState::Intro(s) => s.next_state(),
            GameState::Ongoing(s) => s.next_state(),
        }
    }
}

/// Construct the named state afresh: the intro screen, or a new session
/// with zeroed score, empty field and no pieces.
pub fn create_state(name: StateName, settings: &TetrisSettings) -> (s: GameState)
    requires
        settings.wf(),
    ensures
        s.inv(),
        match name {
            StateName::Intro => s matches GameState::Intro(st) && st.is_fresh(),
            StateName::Ongoing => s matches GameState::Ongoing(st) && st.is_fresh(*settings),
        },
{
    match name {
        StateName::Intro => GameState::Intro(Intro::new(settings)),
        StateName::Ongoing => GameState::Ongoing(Ongoing::new(settings)),
    }
}

} // verus!

pub mod intro;
pub mod ongoing;
