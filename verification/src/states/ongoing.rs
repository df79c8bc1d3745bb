//! The active play session: the falling piece, the settled field, score
//! and level, the cheat buffer, and the game-over/restart life cycle.

use vstd::prelude::*;

use crate::common::{Color, GameUI, PadInput, Position};
use crate::conf::TetrisSettings;
use crate::playfield::{destroyed_count, row_set, PlayField};
use crate::states::{incr_loop_count, random_byte, spec_incr, State, StateName};
use crate::tetromino::{
    dropped_rel, moved_rel, rotated_rel, same_piece, spec_bricks, GameWorld, Shape, Tetromino,
};

verus! {

/// Two fields hold the same grid.
pub open spec fn field_eq(a: PlayField, b: PlayField) -> bool {
    &&& a.width == b.width
    &&& a.height == b.height
    &&& a.cells@ == b.cells@
}

/// Two optional pieces are both absent or hold equal pieces.
pub open spec fn opt_piece_eq(a: Option<Tetromino>, b: Option<Tetromino>) -> bool {
    &&& a is Some <==> b is Some
    &&& a is Some ==> same_piece(a->0, b->0)
}

/// Every cell of the piece lies inside the field's bounds.
pub open spec fn piece_in_field(t: Tetromino, f: PlayField) -> bool {
    forall|i: int| 0 <= i < t.bricks@.len()
        ==> f.in_bounds((#[trigger] t.bricks@[i]).x as int, t.bricks@[i].y as int)
}

/// Addition on a score, saturating at the top of `u32`.
pub open spec fn sat_add(a: int, b: int) -> int {
    if a + b <= u32::MAX {
        a + b
    } else {
        u32::MAX as int
    }
}

/// The fall pace for a level between a slowest and a fastest bound: the
/// pace shrinks one loop per level and is floored at the fastest bound.
pub open spec fn spec_fall_pace_of(level: int, slowest: int, fastest: int) -> int {
    let p = if slowest > level {
        slowest - level
    } else {
        0
    };
    if p >= fastest {
        p
    } else {
        fastest
    }
}

/// Fall pace is monotonically non-increasing in the level and stays
/// between the configured fastest and slowest bounds.
pub proof fn lemma_fall_pace_monotone(l1: int, l2: int, slowest: int, fastest: int)
    requires
        0 <= l1 <= l2,
        1 <= fastest <= slowest,
    ensures
        spec_fall_pace_of(l2, slowest, fastest) <= spec_fall_pace_of(l1, slowest, fastest),
        fastest <= spec_fall_pace_of(l1, slowest, fastest) <= slowest,
{
}

/// The cheat codes, as character sequences.
pub open spec fn code_solongmarianne() -> Seq<char> {
    seq!['s', 'o', 'l', 'o', 'n', 'g', 'm', 'a', 'r', 'i', 'a', 'n', 'n', 'e']
}

pub open spec fn code_paintitblack() -> Seq<char> {
    seq!['p', 'a', 'i', 'n', 't', 'i', 't', 'b', 'l', 'a', 'c', 'k']
}

pub open spec fn code_obladi() -> Seq<char> {
    seq!['o', 'b', 'l', 'a', 'd', 'i']
}

pub open spec fn code_oblada() -> Seq<char> {
    seq!['o', 'b', 'l', 'a', 'd', 'a']
}

pub open spec fn code_hungup() -> Seq<char> {
    seq!['h', 'u', 'n', 'g', 'u', 'p']
}

pub open spec fn code_highwaytohell() -> Seq<char> {
    seq!['h', 'i', 'g', 'h', 'w', 'a', 'y', 't', 'o', 'h', 'e', 'l', 'l']
}

/// Whether two character buffers hold the same characters.
fn chars_eq(a: &Vec<char>, b: &Vec<char>) -> (r: bool)
    ensures
        r == (a@ == b@),
{
    if a.len() != b.len() {
        return false;
    }
    let mut i: usize = 0;
    while i < a.len()
        invariant
            a@.len() == b@.len(),
            0 <= i <= a@.len(),
            forall|j: int| 0 <= j < i ==> a@[j] == b@[j],
        decreases a@.len() - i,
    {
        if a[i] != b[i] {
            return false;
        }
        i = i + 1;
    }
    proof {
        assert(a@ =~= b@);
    }
    true
}

/// The active play session.
pub struct Ongoing {
    pub settings: TetrisSettings,
    pub loop_count: i32,
    pub next_tetromino: Option<Tetromino>,
    pub active_tetromino: Option<Tetromino>,
    pub play_field: PlayField,
    pub score: u32,
    pub cheat_codes: Vec<char>,
    pub is_game_over: bool,
    pub is_restarted: bool,
    pub is_debug_enabled: bool,
}

/// The fields of an `Ongoing` that no cheat ever touches. The cheat
/// buffer is deliberately absent: the caller drains it around the call.
pub open spec fn cheat_frame(pre: Ongoing, post: Ongoing) -> bool {
    &&& post.settings == pre.settings
    &&& post.loop_count == pre.loop_count
    &&& opt_piece_eq(post.active_tetromino, pre.active_tetromino)
    &&& post.is_game_over == pre.is_game_over
    &&& post.is_restarted == pre.is_restarted
    &&& post.is_debug_enabled == pre.is_debug_enabled
    &&& post.play_field.width == pre.play_field.width
    &&& post.play_field.height == pre.play_field.height
}

/// What each cheat code does: the table of effects. With cheating
/// disabled every code is accepted but has no effect.
pub open spec fn cheat_outcome(pre: Ongoing, post: Ongoing, code: Seq<char>) -> bool {
    let h = pre.play_field.height as int;
    &&& cheat_frame(pre, post)
    &&& if !pre.settings.enable_cheating {
        &&& field_eq(post.play_field, pre.play_field)
        &&& post.score == pre.score
        &&& opt_piece_eq(post.next_tetromino, pre.next_tetromino)
    } else if code == code_solongmarianne() {
        // force the next queued piece to be an I-shape
        &&& post.next_tetromino matches Some(t) && t.wf() && t.shape == Shape::I
            && t.position == (Position { x: 0, y: 0 }) && t.degree == 0
        &&& field_eq(post.play_field, pre.play_field)
        &&& post.score == pre.score
    } else if code == code_paintitblack() {
        // clear the field
        &&& post.play_field.is_empty_field()
        &&& post.score == pre.score
        &&& opt_piece_eq(post.next_tetromino, pre.next_tetromino)
    } else if code == code_obladi() {
        // force-clear the bottom row
        &&& PlayField::compacted_from(post.play_field, pre.play_field,
            row_set(seq![(h - 1) as i16]))
        &&& post.score == pre.score
        &&& opt_piece_eq(post.next_tetromino, pre.next_tetromino)
    } else if code == code_oblada() {
        // force-clear the bottom two rows
        &&& PlayField::compacted_from(post.play_field, pre.play_field,
            row_set(seq![(h - 1) as i16, (h - 2) as i16]))
        &&& post.score == pre.score
        &&& opt_piece_eq(post.next_tetromino, pre.next_tetromino)
    } else if code == code_hungup() {
        // reset the score
        &&& post.score == 0
        &&& field_eq(post.play_field, pre.play_field)
        &&& opt_piece_eq(post.next_tetromino, pre.next_tetromino)
    } else if code == code_highwaytohell() {
        // add 500 to the score
        &&& post.score as int == sat_add(pre.score as int, 500)
        &&& field_eq(post.play_field, pre.play_field)
        &&& opt_piece_eq(post.next_tetromino, pre.next_tetromino)
    } else {
        // an unknown code has no effect
        &&& field_eq(post.play_field, pre.play_field)
        &&& post.score == pre.score
        &&& opt_piece_eq(post.next_tetromino, pre.next_tetromino)
    }
}

impl Ongoing {
    /// The session's invariant: well-formed settings and field of the
    /// configured size; an active piece, if any, well formed and entirely
    /// inside the field; a queued piece, if any, parked at the origin;
    /// and a bounded cheat buffer.
    pub open spec fn inv(&self) -> bool {
        &&& self.settings.wf()
        &&& self.play_field.wf()
        &&& self.play_field.width == self.settings.play_field_width
        &&& self.play_field.height == self.settings.play_field_height
        &&& self.active_tetromino matches Some(t)
            ==> t.wf() && piece_in_field(t, self.play_field)
        &&& self.next_tetromino matches Some(t)
            ==> t.wf() && t.position == (Position { x: 0, y: 0 }) && t.degree == 0
        &&& self.cheat_codes@.len() <= 20
        &&& self.loop_count >= 0
    }

    /// A freshly constructed session: zero score, empty field, no pieces,
    /// loop counter zero, all flags down.
    pub open spec fn is_fresh(&self, settings: TetrisSettings) -> bool {
        &&& self.settings == settings
        &&& self.loop_count == 0
        &&& self.next_tetromino is None
        &&& self.active_tetromino is None
        &&& self.play_field.width == settings.play_field_width
        &&& self.play_field.height == settings.play_field_height
        &&& self.play_field.is_empty_field()
        &&& self.score == 0
        &&& self.cheat_codes@.len() == 0
        &&& !self.is_game_over
        &&& !self.is_restarted
        &&& !self.is_debug_enabled
    }

    pub fn new(settings: &TetrisSettings) -> (s: Self)
        requires
            settings.wf(),
        ensures
            s.inv(),
            s.is_fresh(*settings),
    {
        Self {
            settings: *settings,
            loop_count: 0,
            next_tetromino: None,
            active_tetromino: None,
            play_field: PlayField::new(settings.play_field_width, settings.play_field_height),
            score: 0,
            cheat_codes: Vec::new(),
            is_game_over: false,
            is_restarted: false,
            is_debug_enabled: false,
        }
    }

    /// Where a new piece spawns: top of the field, centered.
    pub open spec fn spec_top_center(&self) -> Position {
        Position { x: (self.play_field.width as int / 2 - 2) as i16, y: 0 }
    }

    pub fn top_center_pos(&self) -> (p: Position)
        ensures
            p == self.spec_top_center(),
    {
        Position::new(self.play_field.width() / 2 - 2, 0)
    }

    /// The level determined by a score: the quotient by the configured
    /// divisor, saturated at the top of `u8`.
    pub open spec fn spec_level(&self) -> int {
        let l = self.score as int / self.settings.score_per_level as int;
        if l <= u8::MAX as int {
            l
        } else {
            u8::MAX as int
        }
    }

    pub fn level(&self) -> (l: u8)
        requires
            self.inv(),
        ensures
            l as int == self.spec_level(),
    {
        let level = self.score / self.settings.score_per_level;
        if level <= u8::MAX as u32 {
            level as u8
        } else {
            u8::MAX
        }
    }

    /// The current fall pace: the number of game loops per one cell of
    /// descent. The smaller the pace, the faster the game.
    pub open spec fn spec_fall_pace(&self) -> int {
        spec_fall_pace_of(
            self.spec_level(),
            self.settings.fall_pace_slowest as int,
            self.settings.fall_pace_fastest as int,
        )
    }

    pub fn fall_pace(&self) -> (p: u8)
        requires
            self.inv(),
        ensures
            p as int == self.spec_fall_pace(),
            p >= 1,
    {
        let level = self.level();
        let fall_pace = if self.settings.fall_pace_slowest > level {
            self.settings.fall_pace_slowest - level
        } else {
            0
        };
        if fall_pace >= self.settings.fall_pace_fastest {
            fall_pace
        } else {
            self.settings.fall_pace_fastest
        }
    }

    /// Pop the queued piece (or draw a random one if the queue is empty),
    /// instantiate it at the spawn anchor, and queue a fresh random piece.
    fn take_next_tetromino(&mut self) -> (t: Tetromino)
        requires
            old(self).inv(),
        ensures
            final(self).inv(),
            t.wf(),
            t.degree == 0,
            t.position == old(self).spec_top_center(),
            old(self).next_tetromino matches Some(p) ==> t.shape == p.shape,
            final(self).next_tetromino matches Some(q) && q.wf()
                && q.position == (Position { x: 0, y: 0 }) && q.degree == 0,
            final(self).settings == old(self).settings,
            final(self).loop_count == old(self).loop_count,
            opt_piece_eq(final(self).active_tetromino, old(self).active_tetromino),
            field_eq(final(self).play_field, old(self).play_field),
            final(self).score == old(self).score,
            final(self).cheat_codes@ == old(self).cheat_codes@,
            final(self).is_game_over == old(self).is_game_over,
            final(self).is_restarted == old(self).is_restarted,
            final(self).is_debug_enabled == old(self).is_debug_enabled,
    {
        // Swap a fresh random piece into the queue, taking the old one out.
        let n = random_byte();
        let mut next_tetromino = Some(Tetromino::new(Shape::pick(n), Position::new(0, 0)));
        core::mem::swap(&mut self.next_tetromino, &mut next_tetromino);
        let top_center = self.top_center_pos();
        match next_tetromino {
            Some(tetromino) => Tetromino::new(tetromino.shape(), top_center),
            None => Tetromino::new(Shape::pick(random_byte()), top_center),
        }
    }

    /// Interpret a drained cheat buffer according to the table of codes.
    /// With cheating disabled the code is accepted but has no effect.
    pub fn cheat(&mut self, code: &Vec<char>)
        requires
            old(self).inv(),
        ensures
            final(self).inv(),
            cheat_outcome(*old(self), *final(self), code@),
            final(self).cheat_codes@ == old(self).cheat_codes@,
    {
        if !self.settings.enable_cheating {
            return;
        }

        let c_solong: Vec<char> = vec![
            's', 'o', 'l', 'o', 'n', 'g', 'm', 'a', 'r', 'i', 'a', 'n', 'n', 'e',
        ];
        let c_paint: Vec<char> = vec!['p', 'a', 'i', 'n', 't', 'i', 't', 'b', 'l', 'a', 'c', 'k'];
        let c_obladi: Vec<char> = vec!['o', 'b', 'l', 'a', 'd', 'i'];
        let c_oblada: Vec<char> = vec!['o', 'b', 'l', 'a', 'd', 'a'];
        let c_hungup: Vec<char> = vec!['h', 'u', 'n', 'g', 'u', 'p'];
        let c_highway: Vec<char> = vec![
            'h', 'i', 'g', 'h', 'w', 'a', 'y', 't', 'o', 'h', 'e', 'l', 'l',
        ];
        proof {
            assert(c_solong@ =~= code_solongmarianne());
            assert(c_paint@ =~= code_paintitblack());
            assert(c_obladi@ =~= code_obladi());
            assert(c_oblada@ =~= code_oblada());
            assert(c_hungup@ =~= code_hungup());
            assert(c_highway@ =~= code_highwaytohell());
        }

        if chars_eq(code, &c_solong) {
            self.next_tetromino = Some(Tetromino::new(Shape::I, Position::new(0, 0)));
        } else if chars_eq(code, &c_paint) {
            self.play_field.clear();
        } else if chars_eq(code, &c_obladi) {
            let rows: Vec<i16> = vec![self.play_field.height() - 1];
            proof {
                assert(rows@ =~= seq![(self.play_field.height as int - 1) as i16]);
            }
            self.play_field.destroy_rows(rows.as_slice());
        } else if chars_eq(code, &c_oblada) {
            let rows: Vec<i16> = vec![
                self.play_field.height() - 1,
                self.play_field.height() - 2,
            ];
            proof {
                assert(rows@ =~= seq![
                    (self.play_field.height as int - 1) as i16,
                    (self.play_field.height as int - 2) as i16,
                ]);
            }
            self.play_field.destroy_rows(rows.as_slice());
        } else if chars_eq(code, &c_hungup) {
            self.score = 0;
        } else if chars_eq(code, &c_highway) {
            self.score = if self.score <= u32::MAX - 500 {
                self.score + 500
            } else {
                u32::MAX
            };
        } else {
            // an unknown code: accepted, no effect
        }
    }
}

/// `highwaytohell` raises the score by exactly 500, whatever the score
/// was (up to the top of `u32`), and `hungup` resets it to exactly zero.
pub proof fn lemma_cheat_scores(pre: Ongoing, post_add: Ongoing, post_zero: Ongoing)
    requires
        pre.settings.enable_cheating,
        cheat_outcome(pre, post_add, code_highwaytohell()),
        cheat_outcome(pre, post_zero, code_hungup()),
        pre.score + 500 <= u32::MAX,
    ensures
        post_add.score == pre.score + 500,
        post_zero.score == 0,
{
    assert(code_highwaytohell() != code_solongmarianne());
    assert(code_hungup()[0] == 'h' && code_obladi()[0] == 'o' && code_oblada()[0] == 'o');
    assert(code_hungup() != code_obladi());
    assert(code_hungup() != code_oblada());
}

/// All fields equal: nothing in the session changed.
pub open spec fn same_session(pre: Ongoing, post: Ongoing) -> bool {
    &&& post.settings == pre.settings
    &&& post.loop_count == pre.loop_count
    &&& opt_piece_eq(post.next_tetromino, pre.next_tetromino)
    &&& opt_piece_eq(post.active_tetromino, pre.active_tetromino)
    &&& field_eq(post.play_field, pre.play_field)
    &&& post.score == pre.score
    &&& post.cheat_codes@ == pre.cheat_codes@
    &&& post.is_game_over == pre.is_game_over
    &&& post.is_restarted == pre.is_restarted
    &&& post.is_debug_enabled == pre.is_debug_enabled
}

/// The score gained for clearing `n` rows at once: a table lookup on the
/// settings, clamped at the table's last entry; nothing for zero rows.
pub open spec fn score_for_rows(settings: TetrisSettings, n: int) -> int {
    if n > 0 {
        let idx = if n - 1 < 3 {
            n - 1
        } else {
            3int
        };
        settings.scores_for_rows_destroyed@[idx] as int
    } else {
        0
    }
}

/// How a spawn attempt with shape `sh` transforms the session: the spawn
/// anchor is the top center; if its cells are free the piece becomes
/// active, otherwise the session reaches game-over and the field fades to
/// gray. Either way a fresh piece is queued.
pub open spec fn spawn_outcome(pre: Ongoing, post: Ongoing, sh: Shape) -> bool {
    let top = pre.spec_top_center();
    let nb = spec_bricks(sh, top.x as int, top.y as int, 0);
    &&& pre.next_tetromino matches Some(p) ==> sh == p.shape
    &&& post.next_tetromino matches Some(q) && q.wf()
        && q.position == (Position { x: 0, y: 0 }) && q.degree == 0
    &&& post.settings == pre.settings
    &&& post.score == pre.score
    &&& post.cheat_codes@ == pre.cheat_codes@
    &&& post.is_restarted == pre.is_restarted
    &&& post.is_debug_enabled == pre.is_debug_enabled
    &&& if pre.play_field.spec_free(nb) {
        &&& post.active_tetromino matches Some(a) && a.wf() && a.shape == sh
            && a.position == top && a.degree == 0
        &&& field_eq(post.play_field, pre.play_field)
        &&& !post.is_game_over
    } else {
        &&& post.active_tetromino is None
        &&& PlayField::faded_from(post.play_field, pre.play_field)
        &&& post.is_game_over
    }
}

/// One attempted move of the piece, whichever way it went.
pub open spec fn move_step(t0: Tetromino, t1: Tetromino, field: PlayField, dir: (i16, i16)) -> bool {
    exists|m: bool| moved_rel(t0, t1, &field, dir, m)
}

/// One attempted rotation if A was pressed, else the piece stands still.
pub open spec fn rotate_step(t1: Tetromino, t2: Tetromino, field: PlayField, a: bool) -> bool {
    if a {
        exists|m: bool| rotated_rel(t1, t2, &field, m)
    } else {
        same_piece(t1, t2)
    }
}

/// A hard drop if B was pressed, else the piece stands still.
pub open spec fn drop_step(t2: Tetromino, t3: Tetromino, field: PlayField, b: bool) -> bool {
    if b {
        dropped_rel(t2, t3, &field)
    } else {
        same_piece(t2, t3)
    }
}

/// How one frame of input steers the active piece against the settled
/// field: a move by the requested direction, then a rotation if A is
/// pressed, then a hard drop if B is pressed.
pub open spec fn steered(
    pre: Option<Tetromino>,
    post: Option<Tetromino>,
    field: PlayField,
    input: PadInput,
) -> bool {
    match pre {
        None => post is None,
        Some(t0) => post matches Some(t3)
            && exists|t1: Tetromino, t2: Tetromino|
                #![trigger move_step(t0, t1, field, input.direction),
                    rotate_step(t1, t2, field, input.a)]
            {
                &&& move_step(t0, t1, field, input.direction)
                &&& rotate_step(t1, t2, field, input.a)
                &&& drop_step(t2, t3, field, input.b)
            },
    }
}

/// A typed cheat character lands in the buffer while it has room.
pub open spec fn buffer_appended(buf: Seq<char>, c: Option<char>) -> Seq<char> {
    if c is Some && buf.len() < 20 {
        buf.push(c->0)
    } else {
        buf
    }
}

/// Cells a field reports free all lie inside its bounds.
proof fn lemma_free_in_field(f: PlayField, cells: Seq<Position>)
    requires
        f.spec_free(cells),
    ensures
        forall|i: int| 0 <= i < cells.len()
            ==> f.in_bounds((#[trigger] cells[i]).x as int, cells[i].y as int),
{
}

/// A well-formed piece whose cells lie inside a field has its anchor just
/// left of and above them, inside a narrow band around the field.
proof fn lemma_piece_anchor_bounds(t: Tetromino, f: PlayField)
    requires
        t.wf(),
        piece_in_field(t, f),
    ensures
        -3 <= t.position.x as int <= f.width as int - 1,
        -3 <= t.position.y as int <= f.height as int - 1,
{
    let x = t.position.x as int;
    let y = t.position.y as int;
    crate::tetromino::lemma_cells_near_anchor(t.shape, x, y, t.degree as int);
    let cs = crate::tetromino::shape_cells(t.shape, x, y, t.degree as int);
    assert(t.bricks@[0] == (Position { x: cs[0].0 as i16, y: cs[0].1 as i16 }));
    assert(x <= cs[0].0 <= x + 3 && y <= cs[0].1 <= y + 3);
    assert(t.bricks@[0].x as int == cs[0].0 && t.bricks@[0].y as int == cs[0].1);
    assert(f.in_bounds(t.bricks@[0].x as int, t.bricks@[0].y as int));
}

impl State for Ongoing {
    open spec fn inv(&self) -> bool {
        Ongoing::inv(self)
    }

    /// If the game is over nothing happens. Otherwise the loop counter
    /// advances, and when no piece is active a spawn is attempted with
    /// the queued (or a random) shape; a blocked spawn is the game-over
    /// transition: the field fades to gray and the session stops.
    open spec fn start_rel(pre: Self, post: Self) -> bool {
        if pre.is_game_over {
            same_session(pre, post)
        } else if pre.active_tetromino is Some {
            &&& post.loop_count as int == spec_incr(pre.loop_count as int)
            &&& post.settings == pre.settings
            &&& opt_piece_eq(post.next_tetromino, pre.next_tetromino)
            &&& opt_piece_eq(post.active_tetromino, pre.active_tetromino)
            &&& field_eq(post.play_field, pre.play_field)
            &&& post.score == pre.score
            &&& post.cheat_codes@ == pre.cheat_codes@
            &&& post.is_game_over == pre.is_game_over
            &&& post.is_restarted == pre.is_restarted
            &&& post.is_debug_enabled == pre.is_debug_enabled
        } else {
            &&& post.loop_count as int == spec_incr(pre.loop_count as int)
            &&& exists|sh: Shape| #[trigger] spawn_outcome(pre, post, sh)
        }
    }

    /// Select always toggles the debug overlay. After game-over only
    /// Start reacts, arming the restart. Otherwise the piece is steered,
    /// a typed character lands in the bounded cheat buffer, and Start
    /// drains a non-empty buffer and applies it as a cheat code.
    open spec fn input_rel(pre: Self, post: Self, input: PadInput) -> bool {
        let dbg = if input.select {
            !pre.is_debug_enabled
        } else {
            pre.is_debug_enabled
        };
        &&& post.is_debug_enabled == dbg
        &&& post.settings == pre.settings
        &&& post.loop_count == pre.loop_count
        &&& if pre.is_game_over {
            &&& post.is_game_over
            &&& post.is_restarted == (pre.is_restarted || input.start)
            &&& opt_piece_eq(post.active_tetromino, pre.active_tetromino)
            &&& opt_piece_eq(post.next_tetromino, pre.next_tetromino)
            &&& field_eq(post.play_field, pre.play_field)
            &&& post.score == pre.score
            &&& post.cheat_codes@ == pre.cheat_codes@
        } else {
            &&& post.is_restarted == pre.is_restarted
            &&& post.is_game_over == pre.is_game_over
            &&& exists|mid: Ongoing| {
                &&& #[trigger] steered(pre.active_tetromino, mid.active_tetromino,
                    pre.play_field, input)
                &&& field_eq(mid.play_field, pre.play_field)
                &&& mid.score == pre.score
                &&& opt_piece_eq(mid.next_tetromino, pre.next_tetromino)
                &&& mid.settings == pre.settings
                &&& mid.play_field.height == pre.play_field.height
                &&& mid.cheat_codes@ == buffer_appended(pre.cheat_codes@, input.cheat)
                &&& mid.is_game_over == pre.is_game_over
                &&& mid.is_restarted == pre.is_restarted
                &&& mid.is_debug_enabled == dbg
                &&& mid.loop_count == pre.loop_count
                &&& if input.start && mid.cheat_codes@.len() > 0 {
                    cheat_outcome(mid, post, mid.cheat_codes@) && post.cheat_codes@.len() == 0
                } else {
                    &&& opt_piece_eq(post.active_tetromino, mid.active_tetromino)
                    &&& opt_piece_eq(post.next_tetromino, mid.next_tetromino)
                    &&& field_eq(post.play_field, mid.play_field)
                    &&& post.score == mid.score
                    &&& post.cheat_codes@ == mid.cheat_codes@
                }
            }
        }
    }

    /// If the game is over, or this is not a fall frame, or no piece is
    /// active, nothing happens. Otherwise the piece advances one cell
    /// down if it can; if it cannot it locks: its cells settle with its
    /// color, complete rows are destroyed, and the score rises by the
    /// configured table entry for the number of rows cleared.
    open spec fn update_rel(pre: Self, post: Self) -> bool {
        let pace = pre.spec_fall_pace();
        if pre.is_game_over {
            same_session(pre, post)
        } else if !(pre.loop_count as int % pace == 0) || pre.active_tetromino is None {
            same_session(pre, post)
        } else {
            let t0 = pre.active_tetromino->0;
            let below = spec_bricks(
                t0.shape,
                t0.position.x as int,
                t0.position.y as int + 1,
                t0.degree as int,
            );
            &&& post.settings == pre.settings
            &&& post.loop_count == pre.loop_count
            &&& post.is_game_over == pre.is_game_over
            &&& post.is_restarted == pre.is_restarted
            &&& post.is_debug_enabled == pre.is_debug_enabled
            &&& post.cheat_codes@ == pre.cheat_codes@
            &&& opt_piece_eq(post.next_tetromino, pre.next_tetromino)
            &&& if pre.play_field.spec_free(below) {
                &&& post.active_tetromino matches Some(t1)
                    && t1.shape == t0.shape
                    && t1.degree == t0.degree
                    && t1.position.x == t0.position.x
                    && t1.position.y == t0.position.y + 1
                    && t1.bricks@ == below
                &&& field_eq(post.play_field, pre.play_field)
                &&& post.score == pre.score
            } else {
                &&& post.active_tetromino is None
                &&& exists|filled: PlayField| {
                    &&& #[trigger] PlayField::filled_from(filled, pre.play_field, t0.bricks@,
                        t0.shape.spec_color())
                    &&& filled.wf()
                    &&& PlayField::compacted_from(post.play_field, filled, filled.complete_set())
                    &&& post.score as int == sat_add(
                        pre.score as int,
                        score_for_rows(
                            pre.settings,
                            destroyed_count(filled.complete_set(), 0, filled.height as int),
                        ),
                    )
                }
            }
        }
    }

    /// Return to the intro exactly when the session is over and the
    /// player armed a restart.
    open spec fn next_state(&self) -> Option<StateName> {
        if self.is_game_over && self.is_restarted {
            Some(StateName::Intro)
        } else {
            None
        }
    }

    fn start_loop(&mut self) {
        if self.is_game_over {
            return;
        }
        self.loop_count = incr_loop_count(self.loop_count);
        if self.active_tetromino.is_none() {
            let tetromino = self.take_next_tetromino();
            let ghost sh = tetromino.shape;
            if self.play_field.is_free(tetromino.bricks()) {
                proof {
                    lemma_free_in_field(self.play_field, tetromino.bricks@);
                }
                self.active_tetromino = Some(tetromino);
            } else {
                self.play_field.fade_to_gray();
                self.is_game_over = true;
            }
            proof {
                assert(spawn_outcome(*old(self), *self, sh));
            }
        }
    }

    fn process_input(&mut self, input: PadInput) {
        // Toggle debug mode: usable no matter if the game is over.
        if input.select {
            self.is_debug_enabled = !self.is_debug_enabled;
        }

        // If the game is over, the only thing left is to restart it.
        if self.is_game_over {
            if input.start {
                self.is_restarted = true;
            }
            return;
        }

        // Steer the active piece against the settled field.
        let mut piece = self.active_tetromino.take();
        match &mut piece {
            Some(t) => {
                proof {
                    lemma_piece_anchor_bounds(*t, self.play_field);
                }
                let ghost t0 = *t;
                let m1 = t.move_towards(input.direction, &self.play_field);
                let ghost t1 = *t;
                proof {
                    if m1 {
                        lemma_free_in_field(self.play_field, t1.bricks@);
                    }
                    assert(piece_in_field(t1, self.play_field));
                }
                let m2 = if input.a {
                    t.rotate_right(&self.play_field)
                } else {
                    false
                };
                let ghost t2 = *t;
                proof {
                    if input.a && m2 {
                        lemma_free_in_field(self.play_field, t2.bricks@);
                    }
                    assert(piece_in_field(t2, self.play_field));
                    lemma_piece_anchor_bounds(t2, self.play_field);
                }
                if input.b {
                    t.fall_to_bottom(&self.play_field);
                }
                proof {
                    let t3 = *t;
                    if input.b && t3.position.y > t2.position.y {
                        // the drop rested on free rows; its final cells were free
                        assert(self.play_field.spec_free(spec_bricks(
                            t2.shape,
                            t2.position.x as int,
                            t3.position.y as int,
                            t2.degree as int,
                        )));
                        lemma_free_in_field(self.play_field, t3.bricks@);
                    }
                    assert(piece_in_field(t3, self.play_field));
                    assert(moved_rel(t0, t1, &self.play_field, input.direction, m1));
                    assert(move_step(t0, t1, self.play_field, input.direction));
                    if input.a {
                        assert(rotated_rel(t1, t2, &self.play_field, m2));
                    }
                    assert(rotate_step(t1, t2, self.play_field, input.a));
                    assert(drop_step(t2, t3, self.play_field, input.b));
                    assert(steered(Some(t0), Some(t3), self.play_field, input));
                }
            },
            None => {},
        }
        self.active_tetromino = piece;

        // Collect cheat characters into the bounded buffer.
        if let Some(cheat_code) = input.cheat {
            if self.cheat_codes.len() < 20 {
                self.cheat_codes.push(cheat_code);
            }
        }
        let ghost mid = *self;
        if input.start && self.cheat_codes.len() > 0 {
            // Drain the buffer atomically, then interpret it.
            let mut code: Vec<char> = Vec::new();
            core::mem::swap(&mut code, &mut self.cheat_codes);
            self.cheat(&code);
        }
        proof {
            assert(steered(old(self).active_tetromino, mid.active_tetromino,
                old(self).play_field, input));
        }
    }

    fn update(&mut self) {
        if self.is_game_over {
            return;
        }
        let fall_pace = self.fall_pace();
        if self.loop_count % (fall_pace as i32) == 0 {
            match self.active_tetromino.take() {
                Some(mut tetromino) => {
                    proof {
                        lemma_piece_anchor_bounds(tetromino, self.play_field);
                    }
                    let ghost t0 = tetromino;
                    let has_fallen_down = tetromino.fall_down(&self.play_field);
                    if has_fallen_down {
                        proof {
                            lemma_free_in_field(self.play_field, tetromino.bricks@);
                        }
                        self.active_tetromino = Some(tetromino);
                    } else {
                        // The piece has reached its rest: lock it in.
                        self.play_field.fill_space(tetromino.bricks(), tetromino.color());
                        let ghost filled = self.play_field;
                        let n_rows_destroyed = self.play_field.destroy_completed_rows();
                        let gained: u32 = if n_rows_destroyed > 0 {
                            let mut idx: usize = (n_rows_destroyed - 1) as usize;
                            if idx > 3 {
                                idx = 3;
                            }
                            self.settings.scores_for_rows_destroyed[idx]
                        } else {
                            0
                        };
                        self.score = if self.score <= u32::MAX - gained {
                            self.score + gained
                        } else {
                            u32::MAX
                        };
                    }
                },
                None => {},
            }
        }
    }

    fn draw<U: GameUI>(&self, ui: &mut U) {
        ui.draw_background();

        if self.is_debug_enabled {
            ui.draw_debugging_grids();
        }

        // Draw the wall surrounding the play field.
        let wall_color = Color::Gray;
        let w = self.play_field.width();
        let h = self.play_field.height();
        let mut y: i16 = 0;
        while y <= h
            invariant
                0 <= y,
                w <= 255,
                h <= 255,
            decreases h + 1 - y,
        {
            ui.draw_brick(Position::new(0, y), wall_color);
            ui.draw_brick(Position::new(w + 1, y), wall_color);
            y = y + 1;
        }
        let mut x: i16 = 0;
        while x <= w
            invariant
                0 <= x,
                w <= 255,
                h <= 255,
            decreases w + 1 - x,
        {
            ui.draw_brick(Position::new(x, h), wall_color);
            x = x + 1;
        }

        // Draw the settled bricks and the active piece, moved right by one
        // unit to leave room for the left wall.
        let settled = self.play_field.space();
        let mut i: usize = 0;
        while i < settled.len()
            invariant
                forall|j: int| 0 <= j < settled@.len() ==> {
                    let pc = #[trigger] settled@[j];
                    self.play_field.in_bounds(pc.0.x as int, pc.0.y as int)
                },
            decreases settled.len() - i,
        {
            let (position, color) = settled[i];
            ui.draw_brick(position.updated((1, 0)), color);
            i = i + 1;
        }
        match &self.active_tetromino {
            Some(tetromino) => {
                let color = tetromino.color();
                let bricks = tetromino.bricks();
                let mut i: usize = 0;
                while i < bricks.len()
                    invariant
                        bricks@ == self.active_tetromino->0.bricks@,
                        self.inv(),
                        self.active_tetromino is Some,
                    decreases bricks.len() - i,
                {
                    proof {
                        assert(piece_in_field(self.active_tetromino->0, self.play_field));
                    }
                    ui.draw_brick(bricks[i].updated((1, 0)), color);
                    i = i + 1;
                }
            },
            None => {},
        }

        // Texts are shown on the right panel: leave room for the play
        // field, two wall units and two units of margin.
        let text_x = w + 4;

        let score_text = crate::common::label_number("Score", self.score as u64);
        ui.draw_text(Position::new(text_x, 1), score_text.as_str());
        let level_text = crate::common::label_number("Level", self.level() as u64);
        ui.draw_text(Position::new(text_x, 2), level_text.as_str());
        let cheats_text = crate::common::chars_to_string(&self.cheat_codes);
        ui.draw_text(Position::new(text_x, 3), cheats_text.as_str());
        match &self.next_tetromino {
            Some(next_tetromino) => {
                ui.draw_text(Position::new(text_x, 4), "Next:");
                let color = next_tetromino.color();
                let bricks = next_tetromino.bricks();
                let mut i: usize = 0;
                while i < bricks.len()
                    invariant
                        bricks@ == self.next_tetromino->0.bricks@,
                        self.inv(),
                        self.next_tetromino is Some,
                        0 <= text_x <= 300,
                    decreases bricks.len() - i,
                {
                    proof {
                        let q = self.next_tetromino->0;
                        crate::tetromino::lemma_cells_near_anchor(q.shape, 0, 0,
                            q.degree as int);
                        assert(0 <= bricks@[i as int].x as int <= 3
                            && 0 <= bricks@[i as int].y as int <= 3);
                    }
                    ui.draw_brick(bricks[i].updated((text_x, 5)), color);
                    i = i + 1;
                }
            },
            None => {},
        }
        if self.is_game_over {
            ui.draw_text(Position::new(text_x, 9), "Game Over!");
        }

        if self.is_debug_enabled {
            ui.draw_text(Position::new(text_x, 11), "---- DEBUG ----");
            let loops_text = crate::common::label_number("Loop count", self.loop_count as u64);
            ui.draw_text(Position::new(text_x, 12), loops_text.as_str());
            let pace_text = crate::common::label_number("Fall pace", self.fall_pace() as u64);
            ui.draw_text(Position::new(text_x, 13), pace_text.as_str());
        }
    }

    fn end_loop(&self) -> (r: Option<StateName>) {
        if self.is_game_over && self.is_restarted {
            Some(StateName::Intro)
        } else {
            None
        }
    }
}

} // verus!
