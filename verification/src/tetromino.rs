//! Tetromino geometry and the moving piece.
//!
//! The geometry is a pure function from (shape, anchor, rotation angle) to
//! the four occupied cells. A `Tetromino` caches its cells and mutates them
//! only through moves and rotations that consult a collision oracle.

use vstd::prelude::*;

use crate::common::{Color, Position};

verus! {

/// A read-only collision oracle: the moving piece asks the game world
/// whether a set of cells is free before committing a move.
pub trait GameWorld {
    /// Whether all of `cells` are free, as this world sees it.
    spec fn spec_free(&self, cells: Seq<Position>) -> bool;

    /// The world's own well-formedness, which callers of `is_free`
    /// must have established.
    spec fn spec_wf(&self) -> bool;

    /// An exclusive lower bound on the `y` of any free cell.
    spec fn spec_height(&self) -> int;

    /// A world never reports a cell free at or below its floor.
    proof fn lemma_free_below_height(&self, cells: Seq<Position>)
        ensures
            self.spec_free(cells) ==> forall|i: int|
                0 <= i < cells.len() ==> (#[trigger] cells[i]).y < self.spec_height(),
    ;

    /// A world's floor lies well inside the `i16` coordinate range.
    proof fn lemma_height_fits(&self)
        ensures
            0 <= self.spec_height() <= 32000,
    ;

    fn is_free(&self, positions: &[Position]) -> (r: bool)
        requires
            self.spec_wf(),
        ensures
            r == self.spec_free(positions@),
    ;
}

/// The seven tetromino kinds.
#[derive(Debug, Clone, Copy, PartialEq, Eq, Structural)]
pub enum Shape {
    I,
    O,
    T,
    J,
    L,
    S,
    Z,
}

/// The four canonical rotation angles, in degrees.
pub open spec fn valid_degree(degree: int) -> bool {
    degree == 0 || degree == 90 || degree == 180 || degree == 270
}

/// One clockwise quarter turn of a relative cell inside the 3x3 box:
/// `(x, y) -> (2 - y, x)`.
pub open spec fn quarter_turn(p: (int, int)) -> (int, int) {
    (2 - p.1, p.0)
}

/// `n` clockwise quarter turns of a relative cell.
pub open spec fn turned(p: (int, int), n: nat) -> (int, int)
    decreases n,
{
    if n == 0 {
        p
    } else {
        quarter_turn(turned(p, (n - 1) as nat))
    }
}

/// The canonical relative cells of the shapes drawn inside a 3x3 box,
/// at rotation angle 0.
pub open spec fn base_cells(shape: Shape) -> Seq<(int, int)> {
    match shape {
        Shape::T => seq![(0, 0), (1, 0), (1, 1), (2, 0)],
        Shape::J => seq![(2, 0), (2, 1), (2, 2), (1, 2)],
        Shape::L => seq![(0, 0), (0, 1), (0, 2), (1, 2)],
        Shape::S => seq![(0, 1), (1, 0), (1, 1), (2, 0)],
        Shape::Z => seq![(0, 0), (1, 0), (1, 1), (2, 1)],
        // I and O do not rotate inside the 3x3 box; they are laid out directly.
        Shape::I => seq![(0, 0), (1, 0), (2, 0), (3, 0)],
        Shape::O => seq![(0, 0), (0, 1), (1, 0), (1, 1)],
    }
}

/// The four cells of `shape` anchored at `(x, y)` under `degree`, as
/// mathematical coordinate pairs. `I` alternates between a horizontal
/// and a vertical run; `O` ignores the angle; the five 3x3 shapes turn
/// clockwise a quarter turn for every 90 degrees.
pub open spec fn shape_cells(shape: Shape, x: int, y: int, degree: int) -> Seq<(int, int)> {
    match shape {
        Shape::I => if degree == 0 || degree == 180 {
            seq![(x, y), (x + 1, y), (x + 2, y), (x + 3, y)]
        } else {
            seq![(x, y), (x, y + 1), (x, y + 2), (x, y + 3)]
        },
        Shape::O => seq![(x, y), (x, y + 1), (x + 1, y), (x + 1, y + 1)],
        _ => base_cells(shape).map(|i: int, p: (int, int)|
            { let q = turned(p, (degree / 90) as nat); (x + q.0, y + q.1) }),
    }
}

/// The same four cells as `Position` values.
pub open spec fn spec_bricks(shape: Shape, x: int, y: int, degree: int) -> Seq<Position> {
    shape_cells(shape, x, y, degree).map(|i: int, c: (int, int)|
        Position { x: c.0 as i16, y: c.1 as i16 })
}

/// A quarter turn keeps a relative cell inside the 3x3 box.
proof fn lemma_turned_in_box(p: (int, int), n: nat)
    requires
        0 <= p.0 <= 2,
        0 <= p.1 <= 2,
    ensures
        0 <= turned(p, n).0 <= 2,
        0 <= turned(p, n).1 <= 2,
    decreases n,
{
    if n > 0 {
        lemma_turned_in_box(p, (n - 1) as nat);
    }
}

/// Turning is injective: distinct relative cells stay distinct.
proof fn lemma_turned_injective(p: (int, int), q: (int, int), n: nat)
    requires
        turned(p, n) == turned(q, n),
    ensures
        p == q,
    decreases n,
{
    if n > 0 {
        assert(turned(p, (n - 1) as nat) == turned(q, (n - 1) as nat));
        lemma_turned_injective(p, q, (n - 1) as nat);
    }
}

/// Every cell of a shape lies within 3 units right and down of its anchor.
pub proof fn lemma_cells_near_anchor(shape: Shape, x: int, y: int, degree: int)
    requires
        valid_degree(degree),
    ensures
        shape_cells(shape, x, y, degree).len() == 4,
        forall|i: int| 0 <= i < 4 ==> {
            let c = #[trigger] shape_cells(shape, x, y, degree)[i];
            x <= c.0 <= x + 3 && y <= c.1 <= y + 3
        },
{
    let cs = shape_cells(shape, x, y, degree);
    match shape {
        Shape::I => {},
        Shape::O => {},
        _ => {
            let n = (degree / 90) as nat;
            let rel = base_cells(shape);
            assert forall|i: int| 0 <= i < 4 implies {
                let c = #[trigger] cs[i];
                x <= c.0 <= x + 3 && y <= c.1 <= y + 3
            } by {
                lemma_turned_in_box(rel[i], n);
            }
        },
    }
}

/// For all shapes and all four angles, the four cells are pairwise distinct.
pub proof fn lemma_cells_distinct(shape: Shape, x: int, y: int, degree: int)
    requires
        valid_degree(degree),
    ensures
        forall|i: int, j: int| 0 <= i < j < 4 ==>
            shape_cells(shape, x, y, degree)[i] != shape_cells(shape, x, y, degree)[j],
{
    let cs = shape_cells(shape, x, y, degree);
    match shape {
        Shape::I => {},
        Shape::O => {},
        _ => {
            let n = (degree / 90) as nat;
            let rel = base_cells(shape);
            assert forall|i: int, j: int| 0 <= i < j < 4 implies cs[i] != cs[j] by {
                if cs[i] == cs[j] {
                    assert(turned(rel[i], n) == turned(rel[j], n));
                    lemma_turned_injective(rel[i], rel[j], n);
                }
            }
        },
    }
}

/// The four cells as `Position` values are also pairwise distinct, since
/// near the anchor the `i16` casts are exact.
pub proof fn lemma_bricks_distinct(shape: Shape, x: int, y: int, degree: int)
    requires
        valid_degree(degree),
        i16::MIN <= x,
        x + 3 <= i16::MAX,
        i16::MIN <= y,
        y + 3 <= i16::MAX,
    ensures
        spec_bricks(shape, x, y, degree).len() == 4,
        forall|i: int, j: int| 0 <= i < j < 4 ==>
            spec_bricks(shape, x, y, degree)[i] != spec_bricks(shape, x, y, degree)[j],
{
    lemma_cells_near_anchor(shape, x, y, degree);
    lemma_cells_distinct(shape, x, y, degree);
}

/// The O shape ignores the rotation angle: its cells are identical at
/// every angle, given the same anchor.
pub proof fn lemma_o_rotation_invariant(x: int, y: int, d1: int, d2: int)
    ensures
        shape_cells(Shape::O, x, y, d1) == shape_cells(Shape::O, x, y, d2),
{
}

/// The I shape alternates between a 4-wide horizontal run at 0 and 180
/// degrees and a 4-tall vertical run at 90 and 270 degrees.
pub proof fn lemma_i_runs(x: int, y: int, degree: int)
    requires
        valid_degree(degree),
    ensures
        degree == 0 || degree == 180 ==> forall|i: int| 0 <= i < 4
            ==> shape_cells(Shape::I, x, y, degree)[i] == (x + i, y),
        degree == 90 || degree == 270 ==> forall|i: int| 0 <= i < 4
            ==> shape_cells(Shape::I, x, y, degree)[i] == (x, y + i),
{
    let cs = shape_cells(Shape::I, x, y, degree);
    if degree == 0 || degree == 180 {
        assert forall|i: int| 0 <= i < 4 implies cs[i] == (x + i, y) by {
            if i == 0 {
                assert(cs[0] == (x, y));
            } else if i == 1 {
                assert(cs[1] == (x + 1, y));
            } else if i == 2 {
                assert(cs[2] == (x + 2, y));
            } else {
                assert(cs[3] == (x + 3, y));
            }
        }
    } else {
        assert forall|i: int| 0 <= i < 4 implies cs[i] == (x, y + i) by {
            if i == 0 {
                assert(cs[0] == (x, y));
            } else if i == 1 {
                assert(cs[1] == (x, y + 1));
            } else if i == 2 {
                assert(cs[2] == (x, y + 2));
            } else {
                assert(cs[3] == (x, y + 3));
            }
        }
    }
}

impl Shape {
    /// The shape chosen by a byte: the seven kinds cycle with `n % 7`.
    pub open spec fn spec_pick(n: u8) -> Shape {
        let k = n as int % 7;
        if k == 0 { Shape::I }
        else if k == 1 { Shape::O }
        else if k == 2 { Shape::T }
        else if k == 3 { Shape::J }
        else if k == 4 { Shape::L }
        else if k == 5 { Shape::S }
        else { Shape::Z }
    }

    pub fn pick(n: u8) -> (s: Self)
        ensures
            s == Self::spec_pick(n),
    {
        match n % 7 {
            0 => Shape::I,
            1 => Shape::O,
            2 => Shape::T,
            3 => Shape::J,
            4 => Shape::L,
            5 => Shape::S,
            _ => Shape::Z,
        }
    }

    /// The fixed color of each shape.
    pub open spec fn spec_color(&self) -> Color {
        match self {
            Shape::I => Color::Teal,
            Shape::O => Color::Yellow,
            Shape::T => Color::Purple,
            Shape::J => Color::Blue,
            Shape::L => Color::Orange,
            Shape::S => Color::Green,
            Shape::Z => Color::Red,
        }
    }

    pub fn color(&self) -> (c: Color)
        ensures
            c == self.spec_color(),
    {
        match self {
            Shape::I => Color::Teal,
            Shape::O => Color::Yellow,
            Shape::T => Color::Purple,
            Shape::J => Color::Blue,
            Shape::L => Color::Orange,
            Shape::S => Color::Green,
            Shape::Z => Color::Red,
        }
    }

    /// The four cells of this shape anchored at `position` under `degree`.
    pub fn get_bricks(&self, position: &Position, degree: i16) -> (r: Vec<Position>)
        requires
            valid_degree(degree as int),
            position.x + 3 <= i16::MAX,
            position.y + 3 <= i16::MAX,
        ensures
            r@ == spec_bricks(*self, position.x as int, position.y as int, degree as int),
    {
        let x = position.x;
        let y = position.y;
        let ghost gb = spec_bricks(*self, x as int, y as int, degree as int);
        let r: Vec<Position> = match self {
            Shape::I => {
                if degree == 0 || degree == 180 {
                    vec![
                        Position::new(x, y),
                        Position::new(x + 1, y),
                        Position::new(x + 2, y),
                        Position::new(x + 3, y),
                    ]
                } else {
                    vec![
                        Position::new(x, y),
                        Position::new(x, y + 1),
                        Position::new(x, y + 2),
                        Position::new(x, y + 3),
                    ]
                }
            },
            Shape::O => {
                vec![
                    Position::new(x, y),
                    Position::new(x, y + 1),
                    Position::new(x + 1, y),
                    Position::new(x + 1, y + 1),
                ]
            },
            Shape::T => rotate_3x3(
                position,
                vec![
                    Position::new(0, 0),
                    Position::new(1, 0),
                    Position::new(1, 1),
                    Position::new(2, 0),
                ],
                degree,
                Ghost(base_cells(*self)),
            ),
            Shape::J => rotate_3x3(
                position,
                vec![
                    Position::new(2, 0),
                    Position::new(2, 1),
                    Position::new(2, 2),
                    Position::new(1, 2),
                ],
                degree,
                Ghost(base_cells(*self)),
            ),
            Shape::L => rotate_3x3(
                position,
                vec![
                    Position::new(0, 0),
                    Position::new(0, 1),
                    Position::new(0, 2),
                    Position::new(1, 2),
                ],
                degree,
                Ghost(base_cells(*self)),
            ),
            Shape::S => rotate_3x3(
                position,
                vec![
                    Position::new(0, 1),
                    Position::new(1, 0),
                    Position::new(1, 1),
                    Position::new(2, 0),
                ],
                degree,
                Ghost(base_cells(*self)),
            ),
            Shape::Z => rotate_3x3(
                position,
                vec![
                    Position::new(0, 0),
                    Position::new(1, 0),
                    Position::new(1, 1),
                    Position::new(2, 1),
                ],
                degree,
                Ghost(base_cells(*self)),
            ),
        };
        proof {
            assert(r@ =~= gb);
        }
        r
    }
}

/// Rotate the relative cells of a 3x3 pattern clockwise a quarter turn for
/// every 90 degrees, then translate them by the anchor `top_left`.
fn rotate_3x3(
    top_left: &Position,
    bricks: Vec<Position>,
    degree: i16,
    Ghost(rel): Ghost<Seq<(int, int)>>,
) -> (r: Vec<Position>)
    requires
        valid_degree(degree as int),
        top_left.x + 3 <= i16::MAX,
        top_left.y + 3 <= i16::MAX,
        bricks@.len() == rel.len(),
        forall|i: int| 0 <= i < rel.len() ==> {
            let p = #[trigger] rel[i];
            0 <= p.0 <= 2 && 0 <= p.1 <= 2
                && bricks@[i].x == p.0 && bricks@[i].y == p.1
        },
    ensures
        r@.len() == rel.len(),
        forall|i: int| 0 <= i < rel.len() ==> r@[i] == {
            let q = turned(rel[i], (degree as int / 90) as nat);
            (Position { x: (top_left.x + q.0) as i16, y: (top_left.y + q.1) as i16 })
        },
{
    let n_times = degree / 90;
    let ghost n = (degree as int / 90) as nat;
    let mut r: Vec<Position> = Vec::new();
    let mut j: usize = 0;
    while j < bricks.len()
        invariant
            0 <= j <= bricks.len(),
            r@.len() == j,
            0 <= n_times <= 3,
            n == n_times as int,
            top_left.x + 3 <= i16::MAX,
            top_left.y + 3 <= i16::MAX,
            bricks@.len() == rel.len(),
            forall|i: int| 0 <= i < rel.len() ==> {
                let p = #[trigger] rel[i];
                0 <= p.0 <= 2 && 0 <= p.1 <= 2
                    && bricks@[i].x == p.0 && bricks@[i].y == p.1
            },
            forall|i: int| 0 <= i < j ==> r@[i] == {
                let q = turned(rel[i], n);
                Position {
                    x: (top_left.x + q.0) as i16,
                    y: (top_left.y + q.1) as i16,
                }
            },
        decreases bricks.len() - j,
    {
        proof {
            assert(0 <= rel[j as int].0 <= 2 && 0 <= rel[j as int].1 <= 2);
        }
        let mut x = bricks[j].x;
        let mut y = bricks[j].y;
        let mut k: i16 = 0;
        while k < n_times
            invariant
                0 <= k <= n_times,
                0 <= n_times <= 3,
                n == n_times as int,
                bricks@.len() == rel.len(),
                0 <= j < bricks.len(),
                0 <= rel[j as int].0 <= 2,
                0 <= rel[j as int].1 <= 2,
                (x as int, y as int) == turned(rel[j as int], k as nat),
                0 <= x <= 2,
                0 <= y <= 2,
            decreases n_times - k,
        {
            proof {
                lemma_turned_in_box(rel[j as int], (k + 1) as nat);
                assert(turned(rel[j as int], (k + 1) as nat)
                    == quarter_turn(turned(rel[j as int], k as nat)));
            }
            let new_x = 2 - y;
            let new_y = x;
            x = new_x;
            y = new_y;
            k = k + 1;
        }
        r.push(Position::new(top_left.x + x, top_left.y + y));
        j = j + 1;
    }
    r
}

/// A falling piece: its shape, the top-left anchor of its bounding box,
/// its rotation angle, and its four occupied cells. The cells are
/// recomputed on every mutation, never derived lazily.
#[derive(Debug)]
pub struct Tetromino {
    pub shape: Shape,
    pub position: Position,
    pub degree: i16,
    pub bricks: Vec<Position>,
}

/// The fields two pieces share when an operation leaves a piece in place.
pub open spec fn same_piece(a: Tetromino, b: Tetromino) -> bool {
    &&& a.shape == b.shape
    &&& a.position == b.position
    &&& a.degree == b.degree
    &&& a.bricks@ == b.bricks@
}

/// The outcome of `move_towards` by `dir` against `world`: the requested
/// downward component is clamped at zero, and the piece moves exactly when
/// the candidate cells are free.
pub open spec fn moved_rel<W: GameWorld>(
    pre: Tetromino,
    post: Tetromino,
    world: &W,
    dir: (i16, i16),
    moved: bool,
) -> bool {
    let dy: int = if dir.1 > 0 { dir.1 as int } else { 0 };
    let nx = pre.position.x + dir.0;
    let ny = pre.position.y + dy;
    let nb = spec_bricks(pre.shape, nx, ny, pre.degree as int);
    if world.spec_free(nb) {
        &&& moved
        &&& post.shape == pre.shape
        &&& post.degree == pre.degree
        &&& post.position.x == nx
        &&& post.position.y == ny
        &&& post.bricks@ == nb
    } else {
        &&& !moved
        &&& same_piece(pre, post)
    }
}

/// The outcome of `rotate_right` against `world`: the angle advances by 90
/// degrees (mod 360) at the same anchor exactly when the cells at the new
/// angle are free; there is no wall-kick search.
pub open spec fn rotated_rel<W: GameWorld>(
    pre: Tetromino,
    post: Tetromino,
    world: &W,
    turned_ok: bool,
) -> bool {
    let nd = (pre.degree as int + 90) % 360;
    let nb = spec_bricks(pre.shape, pre.position.x as int, pre.position.y as int, nd);
    if world.spec_free(nb) {
        &&& turned_ok
        &&& post.shape == pre.shape
        &&& post.position == pre.position
        &&& post.degree as int == nd
        &&& post.bricks@ == nb
    } else {
        &&& !turned_ok
        &&& same_piece(pre, post)
    }
}

/// The outcome of `fall_to_bottom` against `world`: the piece keeps its
/// column, shape and angle, every row it passed through was free, and it
/// rests where one more step down would not be.
pub open spec fn dropped_rel<W: GameWorld>(pre: Tetromino, post: Tetromino, world: &W) -> bool {
    &&& post.shape == pre.shape
    &&& post.degree == pre.degree
    &&& post.position.x == pre.position.x
    &&& post.position.y >= pre.position.y
    &&& post.bricks@ == spec_bricks(
        pre.shape,
        pre.position.x as int,
        post.position.y as int,
        pre.degree as int,
    )
    &&& !world.spec_free(spec_bricks(
        pre.shape,
        pre.position.x as int,
        post.position.y + 1,
        pre.degree as int,
    ))
    &&& forall|yy: int| pre.position.y < yy <= post.position.y
        ==> world.spec_free(spec_bricks(pre.shape, pre.position.x as int, yy, pre.degree as int))
}

impl Tetromino {
    /// The cached cells always match the geometry of (shape, anchor, angle),
    /// and the anchor leaves room to lay the cells out in `i16`.
    pub open spec fn wf(&self) -> bool {
        &&& valid_degree(self.degree as int)
        &&& self.position.x + 3 <= i16::MAX
        &&& self.position.y + 3 <= i16::MAX
        &&& self.bricks@ == spec_bricks(
            self.shape,
            self.position.x as int,
            self.position.y as int,
            self.degree as int,
        )
    }

    pub fn new(shape: Shape, position: Position) -> (t: Self)
        requires
            position.x + 3 <= i16::MAX,
            position.y + 3 <= i16::MAX,
        ensures
            t.wf(),
            t.shape == shape,
            t.position == position,
            t.degree == 0,
    {
        let degree: i16 = 0;
        let bricks = shape.get_bricks(&position, degree);
        Self { shape, position, degree, bricks }
    }

    pub fn shape(&self) -> (s: Shape)
        ensures
            s == self.shape,
    {
        self.shape
    }

    pub fn color(&self) -> (c: Color)
        ensures
            c == self.shape.spec_color(),
    {
        self.shape.color()
    }

    pub fn bricks(&self) -> (r: &[Position])
        ensures
            r@ == self.bricks@,
    {
        self.bricks.as_slice()
    }

    /// One step down; the piece moves exactly when the cells below are free.
    pub fn fall_down<W: GameWorld>(&mut self, world: &W) -> (moved: bool)
        requires
            world.spec_wf(),
            old(self).wf(),
            old(self).position.y + 4 <= i16::MAX,
        ensures
            final(self).wf(),
            moved_rel(*old(self), *final(self), world, (0, 1), moved),
            final(self).position.y >= old(self).position.y,
    {
        self.move_towards((0, 1), world)
    }

    /// Try to move by `direction`; the downward component is clamped to be
    /// non-negative (a piece never moves up), and the move commits exactly
    /// when the candidate cells are free.
    pub fn move_towards<W: GameWorld>(&mut self, direction: (i16, i16), world: &W) -> (moved: bool)
        requires
            world.spec_wf(),
            old(self).wf(),
            i16::MIN <= old(self).position.x + direction.0,
            old(self).position.x + direction.0 + 3 <= i16::MAX,
            old(self).position.y + (if direction.1 > 0 { direction.1 as int } else { 0 }) + 3
                <= i16::MAX,
        ensures
            final(self).wf(),
            moved_rel(*old(self), *final(self), world, direction, moved),
            final(self).position.y >= old(self).position.y,
    {
        let dy = if direction.1 > 0 { direction.1 } else { 0 };
        let next_position = self.position.updated((direction.0, dy));
        let next_bricks = self.shape.get_bricks(&next_position, self.degree);
        if world.is_free(next_bricks.as_slice()) {
            self.position = next_position;
            self.bricks = next_bricks;
            true
        } else {
            false
        }
    }

    /// Hard drop: keep moving down one cell at a time until blocked.
    pub fn fall_to_bottom<W: GameWorld>(&mut self, world: &W)
        requires
            world.spec_wf(),
            old(self).wf(),
            old(self).position.y + 4 <= i16::MAX,
        ensures
            final(self).wf(),
            dropped_rel(*old(self), *final(self), world),
    {
        loop
            invariant
                world.spec_wf(),
                self.wf(),
                self.shape == old(self).shape,
                self.degree == old(self).degree,
                self.position.x == old(self).position.x,
                self.position.y >= old(self).position.y,
                self.position.y + 4 <= i16::MAX,
                self.position.y == old(self).position.y
                    || self.position.y <= world.spec_height(),
                forall|yy: int| old(self).position.y < yy <= self.position.y
                    ==> world.spec_free(spec_bricks(
                        self.shape,
                        self.position.x as int,
                        yy,
                        self.degree as int,
                    )),
            ensures
                self.wf(),
                dropped_rel(*old(self), *self, world),
            decreases world.spec_height() + 33000 - self.position.y,
        {
            proof {
                world.lemma_height_fits();
            }
            let ghost before = *self;
            let moved = self.fall_down(world);
            if !moved {
                break;
            }
            proof {
                // The step succeeded, so the cells one row down were free;
                // every free cell lies above the world's floor.
                let nb = spec_bricks(
                    before.shape,
                    before.position.x as int,
                    before.position.y + 1,
                    before.degree as int,
                );
                world.lemma_free_below_height(nb);
                lemma_cells_near_anchor(
                    before.shape,
                    before.position.x as int,
                    before.position.y + 1,
                    before.degree as int,
                );
                assert(nb.len() == 4);
                assert(shape_cells(
                    before.shape,
                    before.position.x as int,
                    before.position.y + 1,
                    before.degree as int,
                )[0].1 >= before.position.y + 1);
                assert(nb[0].y < world.spec_height());
            }
        }
    }

    /// Advance the rotation angle by 90 degrees at the same anchor; the
    /// rotation commits exactly when the cells at the new angle are free.
    pub fn rotate_right<W: GameWorld>(&mut self, world: &W) -> (turned_ok: bool)
        requires
            world.spec_wf(),
            old(self).wf(),
        ensures
            final(self).wf(),
            rotated_rel(*old(self), *final(self), world, turned_ok),
            final(self).position == old(self).position,
    {
        let next_degree = (self.degree + 90) % 360;
        let next_bricks = self.shape.get_bricks(&self.position, next_degree);
        if world.is_free(next_bricks.as_slice()) {
            self.degree = next_degree;
            self.bricks = next_bricks;
            true
        } else {
            false
        }
    }
}

/// Four successful clockwise rotations return a piece to its original
/// rotation angle, cell set and anchor.
pub proof fn lemma_rotate_right_four_times<W: GameWorld>(
    t0: Tetromino,
    t1: Tetromino,
    t2: Tetromino,
    t3: Tetromino,
    t4: Tetromino,
    world: &W,
)
    requires
        t0.wf(),
        rotated_rel(t0, t1, world, true),
        rotated_rel(t1, t2, world, true),
        rotated_rel(t2, t3, world, true),
        rotated_rel(t3, t4, world, true),
    ensures
        t4.shape == t0.shape,
        t4.position == t0.position,
        t4.degree == t0.degree,
        t4.bricks@ == t0.bricks@,
{
}

/// Dropping to the bottom is idempotent: a second drop from the rest
/// position leaves the piece exactly where the first left it.
pub proof fn lemma_fall_to_bottom_idempotent<W: GameWorld>(
    t0: Tetromino,
    t1: Tetromino,
    t2: Tetromino,
    world: &W,
)
    requires
        t0.wf(),
        t1.wf(),
        dropped_rel(t0, t1, world),
        dropped_rel(t1, t2, world),
    ensures
        t2.shape == t1.shape,
        t2.position == t1.position,
        t2.degree == t1.degree,
        t2.bricks@ == t1.bricks@,
{
    if t2.position.y > t1.position.y {
        // The second drop's first step was free, yet the first drop rested
        // because that very step was blocked.
        assert(world.spec_free(spec_bricks(
            t1.shape,
            t1.position.x as int,
            t1.position.y + 1,
            t1.degree as int,
        )));
        assert(false);
    }
}

} // verus!
