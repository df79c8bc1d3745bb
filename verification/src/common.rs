//! Shared value types of the game core: grid positions, brick colors,
//! the button set, and the input/output capabilities that an adapter
//! (a renderer, a keyboard reader) implements for the core.

use vstd::prelude::*;

verus! {

/// A 2D grid coordinate; `x` grows to the right, `y` grows downwards.
/// Values may lie outside any particular field: a collision check
/// rejects them before they are ever stored.
#[derive(Debug, Clone, Copy, PartialEq, Eq, Hash, Structural)]
pub struct Position {
    pub x: i16,
    pub y: i16,
}

impl Position {
    pub fn new(x: i16, y: i16) -> (r: Self)
        ensures
            r == (Position { x, y }),
    {
        Self { x, y }
    }

    pub fn xy(&self) -> (r: (i16, i16))
        ensures
            r == (self.x, self.y),
    {
        (self.x, self.y)
    }

    /// A copy of this position translated by `(d.0, d.1)`.
    pub fn updated(&self, d: (i16, i16)) -> (r: Self)
        requires
            i16::MIN <= self.x + d.0 <= i16::MAX,
            i16::MIN <= self.y + d.1 <= i16::MAX,
        ensures
            r.x == self.x + d.0,
            r.y == self.y + d.1,
    {
        Self::new(self.x + d.0, self.y + d.1)
    }
}

/// The color tag of a brick: one per tetromino shape, plus the neutral
/// `Gray` used for walls and for a field faded out at game-over.
#[derive(Debug, Clone, Copy, PartialEq, Eq, Hash, Structural)]
pub enum Color {
    Teal,
    Yellow,
    Purple,
    Blue,
    Orange,
    Green,
    Red,
    Gray,
}

impl Color {
    /// The name of the color, as a character sequence.
    pub open spec fn spec_name(&self) -> Seq<char> {
        match self {
            Color::Teal => "Teal"@,
            Color::Yellow => "Yellow"@,
            Color::Purple => "Purple"@,
            Color::Blue => "Blue"@,
            Color::Orange => "Orange"@,
            Color::Green => "Green"@,
            Color::Red => "Red"@,
            Color::Gray => "Gray"@,
        }
    }

    /// The name of the color, for display on a text panel.
    pub fn name(&self) -> (s: String)
        ensures
            s@ == self.spec_name(),
    {
        match self {
            Color::Teal => "Teal".to_owned(),
            Color::Yellow => "Yellow".to_owned(),
            Color::Purple => "Purple".to_owned(),
            Color::Blue => "Blue".to_owned(),
            Color::Orange => "Orange".to_owned(),
            Color::Green => "Green".to_owned(),
            Color::Red => "Red".to_owned(),
            Color::Gray => "Gray".to_owned(),
        }
    }
}

/// The buttons of the abstract game pad.
#[derive(Debug, Clone, Copy, PartialEq, Eq, Hash, Structural)]
pub enum Button {
    Left,
    Right,
    Up,
    Down,
    A,
    B,
    Select,
    Start,
}

/// The input capability: an adapter reads the keyboard (or any other
/// device) and answers these queries. The core trusts the stated
/// constraints; an implementation must establish them.
pub trait GamePad {
    /// The direction currently requested, as seen by this pad.
    spec fn spec_direction(&self) -> (i16, i16);

    /// Whether `button` is currently pressed, as seen by this pad.
    spec fn spec_pressed(&self, button: Button) -> bool;

    /// The cheat character typed this frame, if any, as seen by this pad.
    spec fn spec_cheat_code(&self) -> Option<char>;

    /// The requested movement; each component is -1, 0 or 1.
    fn direction(&self) -> (r: (i16, i16))
        ensures
            r == self.spec_direction(),
            -1 <= r.0 <= 1,
            -1 <= r.1 <= 1,
    ;

    fn is_pressed(&self, button: Button) -> (r: bool)
        ensures
            r == self.spec_pressed(button),
    ;

    /// A typed cheat character, already normalized by the adapter to a
    /// lowercase ASCII letter.
    fn cheat_code(&self) -> (r: Option<char>)
        ensures
            r == self.spec_cheat_code(),
            r is Some ==> 'a' <= r->0 <= 'z',
    ;
}

/// The render capability: the core calls these with field-relative or
/// panel-relative coordinates; pixel mapping is the adapter's concern.
/// Nothing about the drawing itself is part of the simulation contract.
pub trait GameUI {
    fn draw_background(&mut self);

    fn draw_brick(&mut self, pos: Position, color: Color);

    fn draw_text(&mut self, pos: Position, msg: &str);

    fn draw_debugging_grids(&mut self);
}

/// Relies on String::push: appends one character to the string.
pub assume_specification[ String::push ](s: &mut String, ch: char)
    ensures
        final(s)@ == old(s)@.push(ch),
;

/// The characters of a buffer, joined into one string.
pub fn chars_to_string(cs: &Vec<char>) -> (r: String)
    ensures
        r@ == cs@,
{
    let mut r = String::new();
    let mut i: usize = 0;
    while i < cs.len()
        invariant
            0 <= i <= cs@.len(),
            r@ == cs@.subrange(0, i as int),
        decreases cs@.len() - i,
    {
        r.push(cs[i]);
        proof {
            assert(cs@.subrange(0, i as int).push(cs@[i as int])
                =~= cs@.subrange(0, i as int + 1));
        }
        i = i + 1;
    }
    proof {
        assert(cs@.subrange(0, cs@.len() as int) =~= cs@);
    }
    r
}

/// Relies on std's `format!` to render a label and a number for the side
/// panel; nothing is assumed of the text.
#[verifier::external_body]
pub fn label_number(label: &str, n: u64) -> String {
    format!("{}: {}", label, n)
}

/// One frame's worth of pad input, read once at the start of input
/// processing so that the game states work on plain values.
#[derive(Debug, Clone, Copy)]
pub struct PadInput {
    pub direction: (i16, i16),
    pub a: bool,
    pub b: bool,
    pub select: bool,
    pub start: bool,
    pub cheat: Option<char>,
}

impl PadInput {
    /// What any input read from a `GamePad` satisfies.
    pub open spec fn wf(&self) -> bool {
        &&& -1 <= self.direction.0 <= 1
        &&& -1 <= self.direction.1 <= 1
        &&& self.cheat is Some ==> 'a' <= self.cheat->0 <= 'z'
    }

    /// The view of `pad` as one frame of plain input values.
    pub open spec fn of_pad<P: GamePad>(pad: &P) -> PadInput {
        PadInput {
            direction: pad.spec_direction(),
            a: pad.spec_pressed(Button::A),
            b: pad.spec_pressed(Button::B),
            select: pad.spec_pressed(Button::Select),
            start: pad.spec_pressed(Button::Start),
            cheat: pad.spec_cheat_code(),
        }
    }

    /// Read all queries of `pad` once, into plain values.
    pub fn read<P: GamePad>(pad: &P) -> (r: PadInput)
        ensures
            r == Self::of_pad(pad),
            r.wf(),
    {
        PadInput {
            direction: pad.direction(),
            a: pad.is_pressed(Button::A),
            b: pad.is_pressed(Button::B),
            select: pad.is_pressed(Button::Select),
            start: pad.is_pressed(Button::Start),
            cheat: pad.cheat_code(),
        }
    }
}

} // verus!
