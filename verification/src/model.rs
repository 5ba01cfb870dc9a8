//! The rules of the game as a mathematical model: what a session is, and
//! what each step makes of it.

use crate::board::{
    admits, compacted, empty_grid, full_rows, row_full, settled, BOARD_HEIGHT,
};
use crate::piece::{Color, Piece};
use vstd::prelude::*;

verus! {

/// The gravity interval of a new session, in ticks per row.
pub const INITIAL_SPEED: u32 = 15;

/// The shortest gravity interval that a session reaches.
pub const MIN_SPEED: u32 = 5;

/// The most that one clearing of rows adds to the score.
pub const MAX_LINE_SCORE: u32 = 800;

/// What the player or the driver asks of a session in one tick.
#[derive(Clone, Copy, Debug, PartialEq, Eq, Structural)]
pub enum Command {
    MoveLeft,
    MoveRight,
    SoftDrop,
    Rotate,
    HardDrop,
    Restart,
    Quit,
}

/// The points for taking out `n` rows at once.
pub open spec fn line_score(n: int) -> int {
    if n <= 0 {
        0
    } else if n == 1 {
        100
    } else if n == 2 {
        300
    } else if n == 3 {
        500
    } else {
        800
    }
}

/// The gravity interval after `n` rows have been taken out at once: one tick
/// shorter if there were any, but never under the floor.
pub open spec fn quickened(speed: int, n: int) -> int {
    if n > 0 && speed > MIN_SPEED {
        speed - 1
    } else {
        speed
    }
}

/// A piece that the board admits has its pivot within two rows of the floor
/// or above it.
pub proof fn lemma_admitted_is_low(g: Seq<Option<Color>>, p: Piece)
    requires
        admits(g, p),
    ensures
        p.y <= BOARD_HEIGHT + 1,
{
    let c = p.cells()[0];
    assert(crate::board::cell_free(g, c.0, c.1));
}

/// Where the piece `p` comes to rest on the grid `g` when it falls straight
/// down: the first position under which the next one is not admitted.
pub open spec fn landing(g: Seq<Option<Color>>, p: Piece) -> Piece
    decreases BOARD_HEIGHT + 2 - p.y,
{
    if p.can_shift(0, 1) && admits(g, p.shifted(0, 1)) {
        proof {
            lemma_admitted_is_low(g, p.shifted(0, 1));
        }
        landing(g, p.shifted(0, 1))
    } else {
        p
    }
}

/// A session as the rules see it: the settled cells, the falling piece, the
/// piece in waiting, the gravity interval, the frames counted, the score,
/// and whether the session is over.
pub struct Session {
    pub board: Seq<Option<Color>>,
    pub current: Piece,
    pub next: Piece,
    pub speed: int,
    pub frame: int,
    pub score: int,
    pub game_over: bool,
}

impl Session {
    /// What holds of every session that play reaches: the gravity interval
    /// lies between its floor and its initial value, no row of the board is
    /// full, and while the session is not over the falling piece is where the
    /// board admits it.
    pub open spec fn wf(self) -> bool {
        &&& MIN_SPEED <= self.speed <= INITIAL_SPEED
        &&& forall|y: int| 0 <= y < BOARD_HEIGHT ==> !row_full(self.board, y)
        &&& self.game_over || admits(self.board, self.current)
    }

    /// A new session whose first piece is `a` and whose piece in waiting is
    /// `b`: an empty board, no score, no frame counted, the slowest gravity.
    pub open spec fn fresh(a: Piece, b: Piece) -> Session {
        Session {
            board: empty_grid(),
            current: a,
            next: b,
            speed: INITIAL_SPEED as int,
            frame: 0,
            score: 0,
            game_over: false,
        }
    }

    /// Whether the falling piece can move by `(dx, dy)`: its pivot has machine
    /// coordinates there, and the board admits it there.
    pub open spec fn can_move(self, dx: int, dy: int) -> bool {
        self.current.can_shift(dx, dy) && admits(self.board, self.current.shifted(dx, dy))
    }

    /// The session after an attempt to move the falling piece by `(dx, dy)`:
    /// the piece has moved if it can, and nothing has changed if not.
    pub open spec fn moved(self, dx: int, dy: int) -> Session {
        if self.can_move(dx, dy) {
            Session { current: self.current.shifted(dx, dy), ..self }
        } else {
            self
        }
    }

    /// Whether the falling piece can turn by `dr` quarter turns.
    pub open spec fn can_turn(self, dr: int) -> bool {
        admits(self.board, self.current.rotated(dr))
    }

    /// The session after an attempt to turn the falling piece by `dr` quarter
    /// turns: the piece has turned if it can, and nothing has changed if not.
    pub open spec fn turned(self, dr: int) -> Session {
        if self.can_turn(dr) {
            Session { current: self.current.rotated(dr), ..self }
        } else {
            self
        }
    }

    /// The session after the falling piece has fallen as far as it can.
    pub open spec fn landed(self) -> Session {
        Session { current: landing(self.board, self.current), ..self }
    }

    /// The session after the full rows of its board have been taken out and
    /// paid for: one award for all of them together, and a shorter gravity
    /// interval if there were any.
    pub open spec fn cleared(self) -> Session {
        let n = full_rows(self.board);
        Session {
            board: compacted(self.board),
            score: self.score + line_score(n),
            speed: quickened(self.speed, n),
            ..self
        }
    }

    /// The session after the falling piece has been locked where it is, when
    /// `drawn` is the piece that comes into waiting. A piece with a cell
    /// above the top row ends the session and leaves everything else alone.
    /// Otherwise the piece settles, full rows are cleared, the piece in
    /// waiting becomes the falling piece and `drawn` takes its place; the
    /// session is over if the board does not admit the new falling piece.
    pub open spec fn locked(self, drawn: Piece) -> Session {
        if self.current.pokes_above() {
            Session { game_over: true, ..self }
        } else {
            let after = (Session { board: settled(self.board, self.current), ..self }).cleared();
            Session {
                current: self.next,
                next: drawn,
                game_over: self.game_over || !admits(after.board, self.next),
                ..after
            }
        }
    }

    /// The session after the command of one tick, when `a` and `b` are the
    /// pieces that are drawn if any are. A session that is over takes only a
    /// restart; one in play takes everything but a restart. Quitting is the
    /// driver's business and changes nothing here.
    pub open spec fn applied(self, command: Option<Command>, a: Piece, b: Piece) -> Session {
        match command {
            Some(Command::MoveLeft) => if self.game_over {
                self
            } else {
                self.moved(-1, 0)
            },
            Some(Command::MoveRight) => if self.game_over {
                self
            } else {
                self.moved(1, 0)
            },
            Some(Command::SoftDrop) => if self.game_over {
                self
            } else {
                self.moved(0, 1)
            },
            Some(Command::Rotate) => if self.game_over {
                self
            } else {
                self.turned(1)
            },
            Some(Command::HardDrop) => if self.game_over {
                self
            } else {
                self.landed().locked(a)
            },
            Some(Command::Restart) => if self.game_over {
                Session::fresh(a, b)
            } else {
                self
            },
            Some(Command::Quit) => self,
            None => self,
        }
    }

    /// Whether the session passes the command over: there is none, or it is
    /// for the driver, or it is a restart in play, or anything but a restart
    /// when the session is over.
    pub open spec fn ignores(self, command: Option<Command>) -> bool {
        ||| command is None
        ||| command == Some(Command::Quit)
        ||| command == Some(Command::Restart) && !self.game_over
        ||| command != Some(Command::Restart) && self.game_over
    }

    /// Whether the command makes the session draw pieces.
    pub open spec fn draws_on(self, command: Option<Command>) -> bool {
        ||| command == Some(Command::HardDrop) && !self.game_over && !self.landed().current.pokes_above()
        ||| command == Some(Command::Restart) && self.game_over
    }

    /// The session after gravity has had its turn in one tick, when `drawn`
    /// is the piece that is drawn if one is. A session that is over stands
    /// still. One in play counts the frame, and on each frame that the
    /// gravity interval divides the falling piece moves down one row, or is
    /// locked if it cannot.
    pub open spec fn fallen(self, drawn: Piece) -> Session {
        if self.game_over {
            self
        } else {
            let counted = Session { frame: self.frame + 1, ..self };
            if counted.frame % counted.speed != 0 {
                counted
            } else if counted.can_move(0, 1) {
                counted.moved(0, 1)
            } else {
                counted.locked(drawn)
            }
        }
    }

    /// The session after one tick: the command, then gravity. The pieces
    /// `a` and `b` are those that the command draws, `c` the one that gravity
    /// draws, if any are drawn.
    pub open spec fn ticked(self, command: Option<Command>, a: Piece, b: Piece, c: Piece) -> Session {
        self.applied(command, a, b).fallen(c)
    }
}

} // verus!
