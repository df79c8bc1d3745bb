//! The tunable rules of a game session, injected read-only into the core.

use vstd::prelude::*;

verus! {

/// Field dimensions, the per-row score table, leveling divisor, fall-pace
/// bounds and the cheat switch.
#[derive(Debug, Clone, Copy)]
pub struct TetrisSettings {
    pub play_field_width: u8,
    pub play_field_height: u8,
    /// Score awarded for clearing 1, 2, 3 and 4-or-more rows at once.
    pub scores_for_rows_destroyed: [u32; 4],
    /// Every this many points the level rises by one.
    pub score_per_level: u32,
    /// Fall pace at level 0, in loops per cell of descent.
    pub fall_pace_slowest: u8,
    /// The pace never drops below this bound, however high the level.
    pub fall_pace_fastest: u8,
    pub enable_cheating: bool,
}

impl TetrisSettings {
    /// What the core needs of its settings: a positive leveling divisor
    /// (the level is a quotient by it) and fall-pace bounds that order a
    /// fastest pace of at least one loop per cell below the slowest.
    pub open spec fn wf(&self) -> bool {
        &&& self.score_per_level >= 1
        &&& 1 <= self.fall_pace_fastest <= self.fall_pace_slowest
    }
}

impl Default for TetrisSettings {
    fn default() -> (s: Self)
        ensures
            s.wf(),
            s.play_field_width == 10,
            s.play_field_height == 20,
            s.scores_for_rows_destroyed@ == seq![10u32, 30u32, 50u32, 100u32],
            s.score_per_level == 200,
            s.fall_pace_slowest == 20,
            s.fall_pace_fastest == 3,
            s.enable_cheating == true,
    {
        let s = Self {
            play_field_width: 10,
            play_field_height: 20,
            scores_for_rows_destroyed: [10, 30, 50, 100],
            score_per_level: 200,
            fall_pace_slowest: 20,
            fall_pace_fastest: 3,
            enable_cheating: true,
        };
        proof {
            assert(s.scores_for_rows_destroyed@ =~= seq![10u32, 30u32, 50u32, 100u32]);
        }
        s
    }
}

} // verus!
