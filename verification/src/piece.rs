//! Tetromino shapes and the geometry of a placed piece.

use vstd::prelude::*;

verus! {

/// The seven four-cell shapes.
#[derive(Clone, Copy, Debug, PartialEq, Eq, Structural)]
pub enum Tetromino {
    I,
    O,
    T,
    S,
    Z,
    J,
    L,
}

/// The tag that a settled cell keeps from the piece that filled it.
#[derive(Clone, Copy, Debug, PartialEq, Eq, Structural)]
pub enum Color {
    Cyan,
    Yellow,
    Magenta,
    Green,
    Red,
    Blue,
    Orange,
}

/// A tetromino placed on the grid: its shape, its orientation in quarter
/// turns, and the grid position of its pivot.
#[derive(Clone, Copy, Debug, PartialEq, Eq, Structural)]
pub struct Piece {
    pub kind: Tetromino,
    pub rotation: i32,
    pub x: i32,
    pub y: i32,
    pub color: Color,
}

/// The column in which a new piece appears.
pub const SPAWN_X: i32 = 5;

/// The row in which a new piece appears.
pub const SPAWN_Y: i32 = 0;

/// An offset `o` from the pivot after `r` quarter turns. Any integer is a
/// rotation state; states that differ by a multiple of four agree.
pub open spec fn turned(r: int, o: (int, int)) -> (int, int) {
    let q = r % 4;
    if q == 0 {
        o
    } else if q == 1 {
        (-o.1, o.0)
    } else if q == 2 {
        (-o.0, -o.1)
    } else {
        (o.1, -o.0)
    }
}

impl Tetromino {
    /// The four cells of the shape as offsets from its pivot, in the order in
    /// which the shape is defined.
    pub open spec fn offsets(self) -> Seq<(int, int)> {
        match self {
            Tetromino::I => seq![(-2, 0), (-1, 0), (0, 0), (1, 0)],
            Tetromino::O => seq![(0, 0), (1, 0), (0, 1), (1, 1)],
            Tetromino::T => seq![(-1, 0), (0, 0), (1, 0), (0, 1)],
            Tetromino::S => seq![(0, 0), (1, 0), (-1, 1), (0, 1)],
            Tetromino::Z => seq![(-1, 0), (0, 0), (0, 1), (1, 1)],
            Tetromino::J => seq![(-1, 0), (-1, 1), (0, 0), (1, 0)],
            Tetromino::L => seq![(-1, 0), (0, 0), (1, 0), (1, 1)],
        }
    }

    /// The colour that pieces of this shape carry.
    pub open spec fn tint(self) -> Color {
        match self {
            Tetromino::I => Color::Cyan,
            Tetromino::O => Color::Yellow,
            Tetromino::T => Color::Magenta,
            Tetromino::S => Color::Green,
            Tetromino::Z => Color::Red,
            Tetromino::J => Color::Blue,
            Tetromino::L => Color::Orange,
        }
    }

    /// The shape that a drawn number selects: `0` to `5` pick I, O, T, S, Z
    /// and J in that order, every other number picks L.
    pub open spec fn picked(n: int) -> Tetromino {
        if n == 0 {
            Tetromino::I
        } else if n == 1 {
            Tetromino::O
        } else if n == 2 {
            Tetromino::T
        } else if n == 3 {
            Tetromino::S
        } else if n == 4 {
            Tetromino::Z
        } else if n == 5 {
            Tetromino::J
        } else {
            Tetromino::L
        }
    }

    /// The four cells of the shape as offsets from its pivot.
    pub fn base_shape(self) -> (shape: [(i32, i32); 4])
        ensures
            forall|i: int|
                0 <= i < 4 ==> (#[trigger] shape[i]).0 == self.offsets()[i].0 && shape[i].1
                    == self.offsets()[i].1,
    {
        match self {
            Tetromino::I => [(-2, 0), (-1, 0), (0, 0), (1, 0)],
            Tetromino::O => [(0, 0), (1, 0), (0, 1), (1, 1)],
            Tetromino::T => [(-1, 0), (0, 0), (1, 0), (0, 1)],
            Tetromino::S => [(0, 0), (1, 0), (-1, 1), (0, 1)],
            Tetromino::Z => [(-1, 0), (0, 0), (0, 1), (1, 1)],
            Tetromino::J => [(-1, 0), (-1, 1), (0, 0), (1, 0)],
            Tetromino::L => [(-1, 0), (0, 0), (1, 0), (1, 1)],
        }
    }

    /// The colour that pieces of this shape carry.
    pub fn color(self) -> (c: Color)
        ensures
            c == self.tint(),
    {
        match self {
            Tetromino::I => Color::Cyan,
            Tetromino::O => Color::Yellow,
            Tetromino::T => Color::Magenta,
            Tetromino::S => Color::Green,
            Tetromino::Z => Color::Red,
            Tetromino::J => Color::Blue,
            Tetromino::L => Color::Orange,
        }
    }

    /// The shape that the drawn number `n` selects.
    pub fn from_index(n: i32) -> (kind: Tetromino)
        ensures
            kind == Tetromino::picked(n as int),
    {
        match n {
            0 => Tetromino::I,
            1 => Tetromino::O,
            2 => Tetromino::T,
            3 => Tetromino::S,
            4 => Tetromino::Z,
            5 => Tetromino::J,
            _ => Tetromino::L,
        }
    }
}

impl Piece {
    /// The piece of shape `kind` as it enters play: unrotated, in the spawn
    /// column, on the top row, in the colour of its shape.
    pub open spec fn spawned(kind: Tetromino) -> Piece {
        Piece { kind, rotation: 0, x: SPAWN_X, y: SPAWN_Y, color: kind.tint() }
    }

    /// Whether the piece is one that `spawned` gives.
    pub open spec fn is_spawn(self) -> bool {
        self == Piece::spawned(self.kind)
    }

    /// The four grid cells `(x, y)` that the piece occupies, in the order of
    /// its shape's offsets.
    pub open spec fn cells(self) -> Seq<(int, int)> {
        Seq::new(
            4,
            |i: int|
                {
                    let o = turned(self.rotation as int, self.kind.offsets()[i]);
                    (self.x + o.0, self.y + o.1)
                },
        )
    }

    /// Whether `(x, y)` is one of the piece's cells.
    pub open spec fn covers(self, x: int, y: int) -> bool {
        exists|i: int| 0 <= i < 4 && #[trigger] self.cells()[i] == (x, y)
    }

    /// Whether one of the piece's cells lies above the top row of the board.
    pub open spec fn pokes_above(self) -> bool {
        exists|i: int| 0 <= i < 4 && (#[trigger] self.cells()[i]).1 < 0
    }

    /// Whether the pivot moved by `(dx, dy)` still has machine coordinates.
    pub open spec fn can_shift(self, dx: int, dy: int) -> bool {
        &&& i32::MIN <= self.x + dx <= i32::MAX
        &&& i32::MIN <= self.y + dy <= i32::MAX
    }

    /// The piece moved by `(dx, dy)`; meaningful where `can_shift` holds.
    pub open spec fn shifted(self, dx: int, dy: int) -> Piece {
        Piece { x: (self.x + dx) as i32, y: (self.y + dy) as i32, ..self }
    }

    /// The piece after `dr` further quarter turns, its rotation state brought
    /// back into `0..4`.
    pub open spec fn rotated(self, dr: int) -> Piece {
        Piece { rotation: ((self.rotation + dr) % 4) as i32, ..self }
    }

    /// The piece of shape `kind` as it enters play.
    pub fn spawn(kind: Tetromino) -> (piece: Piece)
        ensures
            piece == Piece::spawned(kind),
    {
        Piece { kind, rotation: 0, x: SPAWN_X, y: SPAWN_Y, color: kind.color() }
    }
}

/// No two of a piece's four cells coincide, whatever its shape, rotation and
/// position.
pub proof fn lemma_cells_distinct(p: Piece)
    ensures
        p.cells().len() == 4,
        forall|i: int, j: int| 0 <= i < j < 4 ==> p.cells()[i] != p.cells()[j],
{
}

} // verus!
