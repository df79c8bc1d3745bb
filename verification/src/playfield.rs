//! The settled-block grid: occupancy, collision checks, row-completion
//! detection, and gravity compaction after rows are destroyed.
//!
//! The grid is stored row-major as `width * height` optional colors; a
//! position outside `[0, width) x [0, height)` is never stored, so the
//! field's invariant is simply the length of that vector.

use vstd::prelude::*;

use crate::common::{Color, Position};
use crate::tetromino::GameWorld;

verus! {

/// Whether `(x, y)` occurs among `ps`.
pub open spec fn pos_listed(ps: Seq<Position>, x: int, y: int) -> bool {
    exists|i: int| 0 <= i < ps.len() && ps[i].x == x && ps[i].y == y
}

/// Whether row `y` occurs in the row list `rows`.
pub open spec fn row_listed(rows: Seq<i16>, y: int) -> bool {
    exists|i: int| 0 <= i < rows.len() && rows[i] == y
}

/// The set of rows named by a row list.
pub open spec fn row_set(rows: Seq<i16>) -> Set<int> {
    Set::new(|y: int| row_listed(rows, y))
}

/// How many rows of `[lo, hi)` belong to `destroyed`.
pub open spec fn destroyed_count(destroyed: Set<int>, lo: int, hi: int) -> int
    decreases hi - lo,
{
    if hi <= lo {
        0
    } else {
        destroyed_count(destroyed, lo, hi - 1) + if destroyed.contains(hi - 1) {
            1int
        } else {
            0int
        }
    }
}

/// The rows of `[0, n)` that survive destruction, in increasing order.
pub open spec fn keep_seq(destroyed: Set<int>, n: int) -> Seq<int>
    decreases n,
{
    if n <= 0 {
        Seq::empty()
    } else if destroyed.contains(n - 1) {
        keep_seq(destroyed, n - 1)
    } else {
        keep_seq(destroyed, n - 1).push(n - 1)
    }
}

proof fn lemma_count_bounds(destroyed: Set<int>, lo: int, hi: int)
    requires
        lo <= hi,
    ensures
        0 <= destroyed_count(destroyed, lo, hi) <= hi - lo,
    decreases hi - lo,
{
    if hi > lo {
        lemma_count_bounds(destroyed, lo, hi - 1);
    }
}

proof fn lemma_count_split(destroyed: Set<int>, lo: int, mid: int, hi: int)
    requires
        lo <= mid <= hi,
    ensures
        destroyed_count(destroyed, lo, hi)
            == destroyed_count(destroyed, lo, mid) + destroyed_count(destroyed, mid, hi),
    decreases hi - mid,
{
    if hi > mid {
        lemma_count_split(destroyed, lo, mid, hi - 1);
    }
}

proof fn lemma_keep_len(destroyed: Set<int>, n: int)
    requires
        n >= 0,
    ensures
        keep_seq(destroyed, n).len() == n - destroyed_count(destroyed, 0, n),
    decreases n,
{
    if n > 0 {
        lemma_keep_len(destroyed, n - 1);
    }
}

proof fn lemma_keep_prefix(destroyed: Set<int>, m: int, n: int)
    requires
        0 <= m <= n,
    ensures
        keep_seq(destroyed, m).len() <= keep_seq(destroyed, n).len(),
        forall|i: int| 0 <= i < keep_seq(destroyed, m).len()
            ==> keep_seq(destroyed, n)[i] == keep_seq(destroyed, m)[i],
    decreases n - m,
{
    if n > m {
        lemma_keep_prefix(destroyed, m, n - 1);
    }
}

proof fn lemma_keep_range(destroyed: Set<int>, n: int)
    requires
        n >= 0,
    ensures
        forall|i: int| 0 <= i < keep_seq(destroyed, n).len() ==> {
            let r = #[trigger] keep_seq(destroyed, n)[i];
            0 <= r < n && !destroyed.contains(r)
        },
    decreases n,
{
    if n > 0 {
        lemma_keep_range(destroyed, n - 1);
        let s = keep_seq(destroyed, n - 1);
        let t = keep_seq(destroyed, n);
        assert forall|i: int| 0 <= i < t.len() implies {
            let r = #[trigger] t[i];
            0 <= r < n && !destroyed.contains(r)
        } by {
            if !destroyed.contains(n - 1) && i == t.len() - 1 {
                assert(t[i] == n - 1);
            } else {
                assert(t[i] == s[i]);
            }
        }
    }
}

proof fn lemma_keep_identity(destroyed: Set<int>, n: int)
    requires
        n >= 0,
        forall|y: int| 0 <= y < n ==> !destroyed.contains(y),
    ensures
        keep_seq(destroyed, n).len() == n,
        forall|i: int| 0 <= i < n ==> keep_seq(destroyed, n)[i] == i,
    decreases n,
{
    if n > 0 {
        lemma_keep_identity(destroyed, n - 1);
    }
}

proof fn lemma_grid_index(w: int, h: int, x: int, y: int)
    requires
        0 <= x < w <= 256,
        0 <= y < h <= 256,
    ensures
        0 <= y * w + x < w * h <= 65536,
{
    assert(0 <= y * w + x < w * h <= 65536) by (nonlinear_arith)
        requires
            0 <= x < w <= 256,
            0 <= y < h <= 256,
    ;
}

proof fn lemma_grid_index_inj(w: int, x1: int, y1: int, x2: int, y2: int)
    requires
        0 <= x1 < w,
        0 <= x2 < w,
        y1 * w + x1 == y2 * w + x2,
    ensures
        x1 == x2,
        y1 == y2,
{
    assert(x1 == x2 && y1 == y2) by (nonlinear_arith)
        requires
            0 <= x1 < w,
            0 <= x2 < w,
            y1 * w + x1 == y2 * w + x2,
    ;
}

/// The settled-block playfield.
pub struct PlayField {
    pub width: u8,
    pub height: u8,
    pub cells: Vec<Option<Color>>,
}

impl PlayField {
    /// The grid holds exactly one slot per cell.
    pub open spec fn wf(&self) -> bool {
        self.cells@.len() == self.width as int * self.height as int
    }

    pub open spec fn in_bounds(&self, x: int, y: int) -> bool {
        0 <= x < self.width && 0 <= y < self.height
    }

    /// The occupant of cell `(x, y)`.
    pub open spec fn cell(&self, x: int, y: int) -> Option<Color>
        recommends
            self.wf(),
            self.in_bounds(x, y),
    {
        self.cells@[y * self.width as int + x]
    }

    /// A field with no occupied cell.
    pub open spec fn is_empty_field(&self) -> bool {
        forall|i: int| 0 <= i < self.cells@.len() ==> self.cells@[i] is None
    }

    /// Row `y` is complete: every column of it is occupied.
    pub open spec fn row_complete(&self, y: int) -> bool {
        &&& 0 <= y < self.height
        &&& forall|x: int| 0 <= x < self.width ==> (#[trigger] self.cell(x, y)) is Some
    }

    /// The set of complete rows.
    pub open spec fn complete_set(&self) -> Set<int> {
        Set::new(|y: int| self.row_complete(y))
    }

    /// How `post` arises from `pre` when `color` is written into every
    /// listed cell that lies inside the field: listed in-bounds cells hold
    /// the new color, all others are untouched.
    pub open spec fn filled_from(
        post: PlayField,
        pre: PlayField,
        ps: Seq<Position>,
        color: Color,
    ) -> bool {
        &&& post.width == pre.width
        &&& post.height == pre.height
        &&& forall|x: int, y: int| pre.in_bounds(x, y)
            ==> #[trigger] post.cell(x, y) == (if pos_listed(ps, x, y) {
                Some(color)
            } else {
                pre.cell(x, y)
            })
    }

    /// How `post` arises from `pre` when every occupied cell fades to the
    /// neutral gray: occupancy is kept, colors are forgotten.
    pub open spec fn faded_from(post: PlayField, pre: PlayField) -> bool {
        &&& post.width == pre.width
        &&& post.height == pre.height
        &&& post.cells@.len() == pre.cells@.len()
        &&& forall|i: int| 0 <= i < pre.cells@.len()
            ==> #[trigger] post.cells@[i] == (if pre.cells@[i] is Some {
                Some(Color::Gray)
            } else {
                None::<Color>
            })
    }

    /// How `post` arises from `pre` when the rows of `destroyed` are
    /// removed in one batch: the surviving rows, in order, settle at the
    /// bottom of the grid, and everything above them is empty.
    pub open spec fn compacted_from(post: PlayField, pre: PlayField, destroyed: Set<int>) -> bool {
        let h = pre.height as int;
        let keep = keep_seq(destroyed, h);
        let k = keep.len() as int;
        &&& post.width == pre.width
        &&& post.height == pre.height
        &&& forall|x: int, y: int| pre.in_bounds(x, y) ==> #[trigger] post.cell(x, y) == (
            if y >= h - k {
                pre.cell(x, keep[y - (h - k)])
            } else {
                None::<Color>
            })
    }

    pub fn new(width: u8, height: u8) -> (f: Self)
        ensures
            f.wf(),
            f.width == width,
            f.height == height,
            f.is_empty_field(),
    {
        proof {
            assert((width as int) * (height as int) <= 65025) by (nonlinear_arith)
                requires
                    width <= 255 && height <= 255,
            ;
        }
        let n: usize = (width as usize) * (height as usize);
        let mut cells: Vec<Option<Color>> = Vec::new();
        let mut i: usize = 0;
        while i < n
            invariant
                0 <= i <= n,
                cells@.len() == i,
                forall|j: int| 0 <= j < i ==> cells@[j] is None,
            decreases n - i,
        {
            cells.push(None);
            i = i + 1;
        }
        Self { width, height, cells }
    }

    pub fn width(&self) -> (w: i16)
        ensures
            w == self.width as i16,
    {
        self.width as i16
    }

    pub fn height(&self) -> (h: i16)
        ensures
            h == self.height as i16,
    {
        self.height as i16
    }

    /// The occupied cells with their colors, scanned row by row. Each
    /// occupied position appears exactly once.
    pub fn space(&self) -> (r: Vec<(Position, Color)>)
        requires
            self.wf(),
        ensures
            forall|i: int| 0 <= i < r@.len() ==> {
                let pc = #[trigger] r@[i];
                self.in_bounds(pc.0.x as int, pc.0.y as int)
                    && self.cell(pc.0.x as int, pc.0.y as int) == Some(pc.1)
            },
            forall|x: int, y: int| self.in_bounds(x, y) && (#[trigger] self.cell(x, y)) is Some
                ==> exists|i: int| 0 <= i < r@.len() && #[trigger] r@[i]
                    == (Position { x: x as i16, y: y as i16 }, self.cell(x, y).unwrap()),
            forall|i: int, j: int| 0 <= i < j < r@.len() ==> r@[i].0 != r@[j].0,
    {
        let w = self.width;
        let h = self.height;
        let mut r: Vec<(Position, Color)> = Vec::new();
        let mut y: u8 = 0;
        while y < h
            invariant
                self.wf(),
                w == self.width,
                h == self.height,
                0 <= y <= h,
                forall|i: int| 0 <= i < r@.len() ==> {
                    let pc = #[trigger] r@[i];
                    self.in_bounds(pc.0.x as int, pc.0.y as int)
                        && pc.0.y < y
                        && self.cell(pc.0.x as int, pc.0.y as int) == Some(pc.1)
                },
                forall|xx: int, yy: int| 0 <= xx < w && 0 <= yy < y
                    && (#[trigger] self.cell(xx, yy)) is Some
                    ==> exists|i: int| 0 <= i < r@.len() && #[trigger] r@[i]
                        == (Position { x: xx as i16, y: yy as i16 }, self.cell(xx, yy).unwrap()),
                forall|i: int, j: int| 0 <= i < j < r@.len() ==> r@[i].0 != r@[j].0,
            decreases h - y,
        {
            let mut x: u8 = 0;
            while x < w
                invariant
                    self.wf(),
                    w == self.width,
                    h == self.height,
                    0 <= y < h,
                    0 <= x <= w,
                    forall|i: int| 0 <= i < r@.len() ==> {
                        let pc = #[trigger] r@[i];
                        self.in_bounds(pc.0.x as int, pc.0.y as int)
                            && (pc.0.y < y || (pc.0.y == y && pc.0.x < x))
                            && self.cell(pc.0.x as int, pc.0.y as int) == Some(pc.1)
                    },
                    forall|xx: int, yy: int| 0 <= xx < w && 0 <= yy < h
                        && (yy < y || (yy == y && xx < x))
                        && (#[trigger] self.cell(xx, yy)) is Some
                        ==> exists|i: int| 0 <= i < r@.len() && #[trigger] r@[i]
                            == (Position { x: xx as i16, y: yy as i16 },
                                self.cell(xx, yy).unwrap()),
                    forall|i: int, j: int| 0 <= i < j < r@.len() ==> r@[i].0 != r@[j].0,
                decreases w - x,
            {
                proof {
                    lemma_grid_index(w as int, h as int, x as int, y as int);
                }
                let idx: usize = (y as usize) * (w as usize) + (x as usize);
                let ghost r0 = r@;
                match self.cells[idx] {
                    Some(color) => {
                        r.push((Position::new(x as i16, y as i16), color));
                    },
                    None => {},
                }
                proof {
                    assert(self.cell(x as int, y as int) == self.cells@[idx as int]);
                    assert forall|xx: int, yy: int| 0 <= xx < w && 0 <= yy < h
                        && (yy < y as int || (yy == y as int && xx < x as int + 1))
                        && (#[trigger] self.cell(xx, yy)) is Some
                        implies exists|i: int| 0 <= i < r@.len() && #[trigger] r@[i]
                            == (Position { x: xx as i16, y: yy as i16 },
                                self.cell(xx, yy).unwrap()) by {
                        if yy == y as int && xx == x as int {
                            assert(r@[r0.len() as int]
                                == (Position { x: xx as i16, y: yy as i16 },
                                    self.cell(xx, yy).unwrap()));
                        } else {
                            let i = choose|i: int| 0 <= i < r0.len() && #[trigger] r0[i]
                                == (Position { x: xx as i16, y: yy as i16 },
                                    self.cell(xx, yy).unwrap());
                            assert(r@[i] == r0[i]);
                        }
                    }
                    assert forall|i: int, j: int| 0 <= i < j < r@.len()
                        implies r@[i].0 != r@[j].0 by {
                        assert(r@[i] == r0[i]);
                        if j < r0.len() {
                            assert(r@[j] == r0[j]);
                        }
                    }
                }
                x = x + 1;
            }
            y = y + 1;
        }
        r
    }

    /// Write `color` into every listed cell that lies inside the field.
    /// Cells outside the bounds are rejected, never stored; an already
    /// occupied cell keeps the newer color.
    pub fn fill_space(&mut self, positions: &[Position], color: Color)
        requires
            old(self).wf(),
        ensures
            final(self).wf(),
            PlayField::filled_from(*final(self), *old(self), positions@, color),
    {
        let w = self.width;
        let h = self.height;
        let mut i: usize = 0;
        while i < positions.len()
            invariant
                self.wf(),
                w == self.width == old(self).width,
                h == self.height == old(self).height,
                0 <= i <= positions.len(),
                forall|x: int, y: int| old(self).in_bounds(x, y)
                    ==> #[trigger] self.cell(x, y)
                        == (if pos_listed(positions@.subrange(0, i as int), x, y) {
                            Some(color)
                        } else {
                            old(self).cell(x, y)
                        }),
            decreases positions.len() - i,
        {
            let p = positions[i];
            let ghost prefix = positions@.subrange(0, i as int);
            let ghost prefix1 = positions@.subrange(0, i as int + 1);
            let ghost prev = *self;
            let inb = 0 <= p.x && p.x < w as i16 && 0 <= p.y && p.y < h as i16;
            if inb {
                proof {
                    lemma_grid_index(w as int, h as int, p.x as int, p.y as int);
                }
                let idx: usize = (p.y as usize) * (w as usize) + (p.x as usize);
                self.cells[idx] = Some(color);
            }
            proof {
                assert(prefix1.last() == positions@[i as int]);
                assert(prefix1.drop_last() =~= prefix);
                assert forall|x: int, y: int| pos_listed(prefix1, x, y)
                    implies pos_listed(prefix, x, y)
                        || (x == positions@[i as int].x && y == positions@[i as int].y) by {
                    let j = choose|j: int| 0 <= j < prefix1.len()
                        && prefix1[j].x == x && prefix1[j].y == y;
                    if j < prefix.len() {
                        assert(prefix[j].x == x && prefix[j].y == y);
                    }
                }
                assert forall|x: int, y: int| pos_listed(prefix, x, y)
                    implies pos_listed(prefix1, x, y) by {
                    let j = choose|j: int| 0 <= j < prefix.len()
                        && prefix[j].x == x && prefix[j].y == y;
                    assert(prefix1[j].x == x && prefix1[j].y == y);
                }
                assert(pos_listed(prefix1, positions@[i as int].x as int,
                    positions@[i as int].y as int)) by {
                    assert(prefix1[i as int] == positions@[i as int]);
                }
                assert forall|x: int, y: int| old(self).in_bounds(x, y)
                    implies #[trigger] self.cell(x, y) == (if pos_listed(prefix1, x, y) {
                        Some(color)
                    } else {
                        old(self).cell(x, y)
                    }) by {
                    lemma_grid_index(w as int, h as int, x, y);
                    if inb {
                        if x == p.x as int && y == p.y as int {
                            assert(self.cell(x, y) == Some(color));
                            assert(pos_listed(prefix1, x, y));
                        } else {
                            if y * w as int + x == p.y as int * w as int + p.x as int {
                                lemma_grid_index_inj(w as int, x, y, p.x as int, p.y as int);
                                assert(false);
                            }
                            assert(self.cell(x, y) == prev.cell(x, y));
                            assert(!(pos_listed(prefix1, x, y) && !pos_listed(prefix, x, y)));
                        }
                    } else {
                        assert(self.cell(x, y) == prev.cell(x, y));
                        if pos_listed(prefix1, x, y) && !pos_listed(prefix, x, y) {
                            // the new entry lies outside the field, so it
                            // cannot name an in-bounds cell
                            assert(false);
                        }
                    }
                }
            }
            i = i + 1;
        }
        proof {
            assert(positions@.subrange(0, positions@.len() as int) =~= positions@);
        }
    }

    /// Destroy every complete row in one batch and report how many there
    /// were.
    pub fn destroy_completed_rows(&mut self) -> (n: i16)
        requires
            old(self).wf(),
        ensures
            final(self).wf(),
            PlayField::compacted_from(*final(self), *old(self), old(self).complete_set()),
            n as int == destroyed_count(old(self).complete_set(), 0, old(self).height as int),
    {
        let h = self.height;
        let mut rows_completed: Vec<i16> = Vec::new();
        let mut y: u8 = 0;
        while y < h
            invariant
                self.wf(),
                self == old(self),
                h == self.height,
                0 <= y <= h,
                rows_completed@.len() == destroyed_count(self.complete_set(), 0, y as int),
                forall|j: int| 0 <= j < rows_completed@.len()
                    ==> self.row_complete(#[trigger] rows_completed@[j] as int),
                forall|yy: int| 0 <= yy < y && self.row_complete(yy)
                    ==> row_listed(rows_completed@, yy),
                forall|yy: int| row_listed(rows_completed@, yy) ==> self.row_complete(yy),
            decreases h - y,
        {
            proof {
                lemma_count_bounds(self.complete_set(), 0, y as int);
                assert(destroyed_count(self.complete_set(), 0, y as int + 1)
                    == destroyed_count(self.complete_set(), 0, y as int)
                        + if self.complete_set().contains(y as int) { 1int } else { 0int });
            }
            let ghost before = rows_completed@;
            if self.row_full(y) {
                rows_completed.push(y as i16);
                proof {
                    assert forall|yy: int| row_listed(rows_completed@, yy)
                        implies self.row_complete(yy) by {
                        let j = choose|j: int| 0 <= j < rows_completed@.len()
                            && rows_completed@[j] == yy;
                        if j < before.len() {
                            assert(before[j] == yy);
                        }
                    }
                    assert forall|yy: int| 0 <= yy < y as int + 1 && self.row_complete(yy)
                        implies row_listed(rows_completed@, yy) by {
                        if yy < y as int {
                            let j = choose|j: int| 0 <= j < before.len() && before[j] == yy;
                            assert(rows_completed@[j] == yy);
                        } else {
                            assert(rows_completed@[before.len() as int] == yy);
                        }
                    }
                }
            } else {
                proof {
                    assert forall|yy: int| 0 <= yy < y as int + 1 && self.row_complete(yy)
                        implies row_listed(rows_completed@, yy) by {}
                }
            }
            y = y + 1;
        }
        proof {
            lemma_count_bounds(self.complete_set(), 0, h as int);
            assert(row_set(rows_completed@) =~= self.complete_set());
        }
        let n = rows_completed.len();
        self.destroy_rows(rows_completed.as_slice());
        n as i16
    }

    /// Whether every column of row `y` is occupied.
    fn row_full(&self, y: u8) -> (r: bool)
        requires
            self.wf(),
            y < self.height,
        ensures
            r == self.row_complete(y as int),
    {
        let w = self.width;
        let mut x: u8 = 0;
        let mut full = true;
        while x < w
            invariant
                self.wf(),
                w == self.width,
                0 <= y < self.height,
                0 <= x <= w,
                full == forall|xx: int| 0 <= xx < x ==> (#[trigger] self.cell(xx, y as int)) is Some,
            decreases w - x,
        {
            proof {
                lemma_grid_index(w as int, self.height as int, x as int, y as int);
            }
            let idx: usize = (y as usize) * (w as usize) + (x as usize);
            let ghost was_full = full;
            if self.cells[idx].is_none() {
                full = false;
            }
            proof {
                assert(self.cell(x as int, y as int) == self.cells@[idx as int]);
                if full {
                    assert forall|xx: int| 0 <= xx < x as int + 1
                        implies (#[trigger] self.cell(xx, y as int)) is Some by {}
                } else {
                    if was_full {
                        assert(!(self.cell(x as int, y as int) is Some));
                    } else {
                        let xx0 = choose|xx: int| 0 <= xx < x as int
                            && !((#[trigger] self.cell(xx, y as int)) is Some);
                        assert(!(self.cell(xx0, y as int) is Some));
                    }
                    assert(!(forall|xx: int| 0 <= xx < x as int + 1
                        ==> (#[trigger] self.cell(xx, y as int)) is Some));
                }
            }
            x = x + 1;
        }
        full
    }

    /// Recolor every occupied cell to the neutral gray; occupancy is kept.
    pub fn fade_to_gray(&mut self)
        requires
            old(self).wf(),
        ensures
            final(self).wf(),
            PlayField::faded_from(*final(self), *old(self)),
    {
        let n = self.cells.len();
        let mut i: usize = 0;
        while i < n
            invariant
                n == self.cells@.len(),
                self.width == old(self).width,
                self.height == old(self).height,
                self.cells@.len() == old(self).cells@.len(),
                0 <= i <= n,
                forall|j: int| 0 <= j < i ==> #[trigger] self.cells@[j]
                    == (if old(self).cells@[j] is Some {
                        Some(Color::Gray)
                    } else {
                        None::<Color>
                    }),
                forall|j: int| i <= j < n ==> #[trigger] self.cells@[j] == old(self).cells@[j],
            decreases n - i,
        {
            if self.cells[i].is_some() {
                self.cells[i] = Some(Color::Gray);
            }
            i = i + 1;
        }
    }

    /// Empty the field entirely; the dimensions are kept.
    pub fn clear(&mut self)
        requires
            old(self).wf(),
        ensures
            final(self).wf(),
            final(self).width == old(self).width,
            final(self).height == old(self).height,
            final(self).is_empty_field(),
    {
        let n = self.cells.len();
        let mut i: usize = 0;
        while i < n
            invariant
                n == self.cells@.len(),
                self.width == old(self).width,
                self.height == old(self).height,
                self.cells@.len() == old(self).cells@.len(),
                0 <= i <= n,
                forall|j: int| 0 <= j < i ==> self.cells@[j] is None,
            decreases n - i,
        {
            self.cells[i] = None;
            i = i + 1;
        }
    }

    /// Remove the listed rows in one batch transform: surviving rows keep
    /// their order and settle at the bottom, so every surviving cell falls
    /// by the number of destroyed rows strictly below it.
    pub fn destroy_rows(&mut self, rows: &[i16])
        requires
            old(self).wf(),
        ensures
            final(self).wf(),
            PlayField::compacted_from(*final(self), *old(self), row_set(rows@)),
    {
        let ghost dset = row_set(rows@);
        let w = self.width;
        let h = self.height;
        if rows.len() == 0 {
            proof {
                assert(forall|y: int| !dset.contains(y));
                lemma_keep_identity(dset, h as int);
            }
            return;
        }
        // The surviving rows, in increasing order.
        let mut keep: Vec<u8> = Vec::new();
        let mut y: u8 = 0;
        while y < h
            invariant
                self.wf(),
                self == old(self),
                dset == row_set(rows@),
                w == self.width,
                h == self.height,
                0 <= y <= h,
                keep@.len() == keep_seq(dset, y as int).len(),
                forall|i: int| 0 <= i < keep@.len()
                    ==> #[trigger] keep@[i] as int == keep_seq(dset, y as int)[i],
            decreases h - y,
        {
            let ghost before = keep@;
            let listed = row_in_list(rows, y as i16);
            if !listed {
                keep.push(y);
            }
            proof {
                let s = keep_seq(dset, y as int);
                let t = keep_seq(dset, y as int + 1);
                if listed {
                    assert(t == s);
                } else {
                    assert(t == s.push(y as int));
                    assert(keep@ == before.push(y));
                }
                assert forall|i: int| 0 <= i < keep@.len()
                    implies #[trigger] keep@[i] as int == t[i] by {
                    if i < before.len() {
                        assert(keep@[i] == before[i]);
                        assert(t[i] == s[i]);
                    } else {
                        assert(keep@[i] == y);
                        assert(t[i] == y as int);
                    }
                }
                assert(keep@.len() == t.len());
            }
            y = y + 1;
        }
        let k = keep.len();
        proof {
            lemma_keep_len(dset, h as int);
            lemma_count_bounds(dset, 0, h as int);
            lemma_keep_range(dset, h as int);
        }
        // Build the compacted grid: the top h - k rows empty, then the
        // surviving rows in order.
        let mut nc: Vec<Option<Color>> = Vec::new();
        let mut y2: u8 = 0;
        while y2 < h
            invariant
                self.wf(),
                self == old(self),
                w == self.width,
                h == self.height,
                0 <= y2 <= h,
                k == keep@.len(),
                k as int == keep_seq(dset, h as int).len(),
                k <= h,
                forall|i: int| 0 <= i < keep@.len()
                    ==> #[trigger] keep@[i] as int == keep_seq(dset, h as int)[i],
                forall|i: int| 0 <= i < keep@.len() ==> 0 <= #[trigger] keep@[i] < h,
                nc@.len() == y2 as int * w as int,
                forall|xx: int, yy: int| 0 <= xx < w && 0 <= yy < y2
                    ==> #[trigger] nc@[yy * w as int + xx] == (if yy >= h as int - k as int {
                        self.cells@[keep_seq(dset, h as int)[yy - (h as int - k as int)]
                            * w as int + xx]
                    } else {
                        None::<Color>
                    }),
            decreases h - y2,
        {
            let mut x: u8 = 0;
            while x < w
                invariant
                    self.wf(),
                    self == old(self),
                    w == self.width,
                    h == self.height,
                    0 <= y2 < h,
                    0 <= x <= w,
                    k == keep@.len(),
                    k as int == keep_seq(dset, h as int).len(),
                    k <= h,
                    forall|i: int| 0 <= i < keep@.len()
                        ==> #[trigger] keep@[i] as int == keep_seq(dset, h as int)[i],
                    forall|i: int| 0 <= i < keep@.len() ==> 0 <= #[trigger] keep@[i] < h,
                    nc@.len() == y2 as int * w as int + x as int,
                    forall|xx: int, yy: int| 0 <= xx < w && 0 <= yy < y2
                        ==> #[trigger] nc@[yy * w as int + xx] == (if yy >= h as int - k as int {
                            self.cells@[keep_seq(dset, h as int)[yy - (h as int - k as int)]
                                * w as int + xx]
                        } else {
                            None::<Color>
                        }),
                    forall|xx: int| 0 <= xx < x
                        ==> #[trigger] nc@[y2 as int * w as int + xx]
                            == (if y2 as int >= h as int - k as int {
                                self.cells@[keep_seq(dset, h as int)[y2 as int
                                    - (h as int - k as int)] * w as int + xx]
                            } else {
                                None::<Color>
                            }),
                decreases w - x,
            {
                let v: Option<Color> = if y2 as usize >= h as usize - k {
                    let src = keep[y2 as usize - (h as usize - k)];
                    proof {
                        lemma_grid_index(w as int, h as int, x as int, src as int);
                    }
                    self.cells[(src as usize) * (w as usize) + (x as usize)]
                } else {
                    None
                };
                nc.push(v);
                proof {
                    assert forall|xx: int, yy: int| 0 <= xx < w && 0 <= yy < y2
                        implies #[trigger] nc@[yy * w as int + xx]
                            == (if yy >= h as int - k as int {
                                self.cells@[keep_seq(dset, h as int)[yy - (h as int - k as int)]
                                    * w as int + xx]
                            } else {
                                None::<Color>
                            }) by {
                        assert(yy * w as int + xx < y2 as int * w as int)
                            by (nonlinear_arith)
                            requires
                                0 <= xx < w as int,
                                0 <= yy < y2 as int,
                        ;
                    }
                }
                x = x + 1;
            }
            proof {
                assert((y2 as int + 1) * w as int == y2 as int * w as int + w as int)
                    by (nonlinear_arith);
            }
            y2 = y2 + 1;
        }
        self.cells = nc;
        proof {
            assert(final(self).cells@.len() == h as int * w as int);
            assert(w as int * h as int == h as int * w as int) by (nonlinear_arith);
            assert forall|x: int, y: int| old(self).in_bounds(x, y)
                implies #[trigger] self.cell(x, y) == (if y >= h as int - k as int {
                    old(self).cell(x, keep_seq(dset, h as int)[y - (h as int - k as int)])
                } else {
                    None::<Color>
                }) by {
                lemma_grid_index(w as int, h as int, x, y);
            }
        }
    }
}

/// Whether `y` occurs in `rows`.
fn row_in_list(rows: &[i16], y: i16) -> (r: bool)
    ensures
        r == row_listed(rows@, y as int),
        r == row_set(rows@).contains(y as int),
{
    let mut i: usize = 0;
    while i < rows.len()
        invariant
            0 <= i <= rows.len(),
            forall|j: int| 0 <= j < i ==> rows@[j] != y,
        decreases rows.len() - i,
    {
        if rows[i] == y {
            return true;
        }
        i = i + 1;
    }
    false
}

impl GameWorld for PlayField {
    /// All cells inside the field and unoccupied.
    open spec fn spec_free(&self, cells: Seq<Position>) -> bool {
        forall|i: int| 0 <= i < cells.len() ==> {
            let p = #[trigger] cells[i];
            self.in_bounds(p.x as int, p.y as int) && self.cell(p.x as int, p.y as int) is None
        }
    }

    open spec fn spec_height(&self) -> int {
        self.height as int
    }

    open spec fn spec_wf(&self) -> bool {
        self.wf()
    }

    proof fn lemma_free_below_height(&self, cells: Seq<Position>) {
    }

    proof fn lemma_height_fits(&self) {
    }

    /// Every listed position is inside `[0, width) x [0, height)` and not
    /// already occupied; an empty list is vacuously free.
    fn is_free(&self, positions: &[Position]) -> (r: bool) {
        let w = self.width;
        let h = self.height;
        let mut i: usize = 0;
        while i < positions.len()
            invariant
                self.wf(),
                w == self.width,
                h == self.height,
                0 <= i <= positions.len(),
                forall|j: int| 0 <= j < i ==> {
                    let p = #[trigger] positions@[j];
                    self.in_bounds(p.x as int, p.y as int)
                        && self.cell(p.x as int, p.y as int) is None
                },
            decreases positions.len() - i,
        {
            let p = positions[i];
            if p.x < 0 || p.x >= w as i16 || p.y < 0 || p.y >= h as i16 {
                return false;
            }
            proof {
                lemma_grid_index(w as int, h as int, p.x as int, p.y as int);
            }
            let idx: usize = (p.y as usize) * (w as usize) + (p.x as usize);
            if self.cells[idx].is_some() {
                return false;
            }
            i = i + 1;
        }
        true
    }
}

/// Gravity compaction, cell by cell: when the rows of `destroyed` are
/// removed, a surviving cell at `(x, y)` lands exactly
/// `destroyed_count(destroyed, y + 1, height)` rows further down — the
/// number of destroyed rows strictly below it — in one batch transform.
pub proof fn lemma_compaction_gravity(
    pre: PlayField,
    post: PlayField,
    destroyed: Set<int>,
    x: int,
    y: int,
)
    requires
        PlayField::compacted_from(post, pre, destroyed),
        pre.in_bounds(x, y),
        !destroyed.contains(y),
    ensures
        y <= y + destroyed_count(destroyed, y + 1, pre.height as int) < pre.height,
        post.cell(x, y + destroyed_count(destroyed, y + 1, pre.height as int)) == pre.cell(x, y),
{
    let h = pre.height as int;
    let keep = keep_seq(destroyed, h);
    let k = keep.len() as int;
    let idx = keep_seq(destroyed, y).len() as int;
    lemma_keep_len(destroyed, y);
    lemma_keep_len(destroyed, h);
    lemma_count_bounds(destroyed, 0, y);
    lemma_count_bounds(destroyed, y + 1, h);
    lemma_count_split(destroyed, 0, y, h);
    lemma_count_split(destroyed, y, y + 1, h);
    assert(destroyed_count(destroyed, y, y) == 0);
    assert(destroyed_count(destroyed, y, y + 1) == 0);
    // keep_seq(destroyed, y + 1) extends keep_seq(destroyed, y) with y itself.
    assert(keep_seq(destroyed, y + 1) == keep_seq(destroyed, y).push(y));
    lemma_keep_prefix(destroyed, y + 1, h);
    assert(keep[idx] == y);
    let d = y + destroyed_count(destroyed, y + 1, h);
    assert(d - (h - k) == idx);
}

} // verus!
