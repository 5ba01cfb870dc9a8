//! A game session that runs: the state that a driver owns, and the
//! operations that carry it from tick to tick.

use crate::board::{
    admits, cell, cell_free, empty_grid, row_full, settled, Board, BOARD_HEIGHT, BOARD_WIDTH,
    CELL_COUNT,
};
use crate::laws::law_cleared_board_has_no_full_row;
use crate::model::{
    landing, lemma_admitted_is_low, line_score, Command, Session, INITIAL_SPEED, MAX_LINE_SCORE,
    MIN_SPEED,
};
use crate::piece::{lemma_cells_distinct, Color, Piece, Tetromino};
use crate::random::{draw_in_range, fresh_generator};
use bracket_lib::prelude::RandomNumberGenerator;
use vstd::prelude::*;

verus! {

/// A session in play or over, with the generator that its pieces come from.
pub struct State {
    pub board: Board,
    pub current: Piece,
    pub next: Piece,
    pub rng: RandomNumberGenerator,
    pub speed: u32,
    pub frame: u32,
    pub score: u32,
    pub game_over: bool,
}

impl View for State {
    type V = Session;

    /// Every part of the state but the generator, whose inside cannot be
    /// seen.
    open spec fn view(&self) -> Session {
        Session {
            board: self.board@,
            current: self.current,
            next: self.next,
            speed: self.speed as int,
            frame: self.frame as int,
            score: self.score as int,
            game_over: self.game_over,
        }
    }
}

/// Every piece enters play where an empty board admits it.
pub proof fn lemma_spawn_fits_empty(kind: Tetromino)
    ensures
        admits(empty_grid(), Piece::spawned(kind)),
{
    let g = empty_grid();
    let p = Piece::spawned(kind);
    assert forall|i: int| 0 <= i < 4 implies cell_free(
        g,
        (#[trigger] p.cells()[i]).0,
        p.cells()[i].1,
    ) by {}
}

/// No row of an empty board is full.
pub proof fn lemma_empty_has_no_full_row()
    ensures
        forall|y: int| 0 <= y < BOARD_HEIGHT ==> !row_full(empty_grid(), y),
{
    let g = empty_grid();
    assert forall|y: int| 0 <= y < BOARD_HEIGHT implies !row_full(g, y) by {
        assert(cell(g, 0, y) is None);
    }
}

/// A command adds at most one award to the score, never lowers it, and
/// leaves the frame count alone or sets it to zero.
pub proof fn lemma_applied_bounds(s: Session, command: Option<Command>, a: Piece, b: Piece)
    requires
        0 <= s.score,
        0 <= s.frame,
    ensures
        0 <= s.applied(command, a, b).score <= s.score + MAX_LINE_SCORE,
        0 <= s.applied(command, a, b).frame <= s.frame,
{
}

impl State {
    /// Whether the state is one that play reaches.
    pub open spec fn wf(self) -> bool {
        self@.wf()
    }

    /// Whether the score has room for `awards` more awards.
    pub open spec fn has_room_for(self, awards: int) -> bool {
        self.score + awards * MAX_LINE_SCORE <= u32::MAX
    }

    /// Whether this state is well-formed.
    pub fn is_well_formed(&self) -> (ok: bool)
        ensures
            ok == self.wf(),
    {
        let mut y: usize = 0;
        while y < BOARD_HEIGHT
            invariant
                y <= BOARD_HEIGHT,
                forall|r: int| 0 <= r < y ==> !row_full(self.board@, r),
            decreases BOARD_HEIGHT - y,
        {
            if self.board.row_is_full(y) {
                return false;
            }
            y += 1;
        }
        MIN_SPEED <= self.speed && self.speed <= INITIAL_SPEED && (self.game_over
            || self.is_valid_position(&self.current))
    }

    /// Draws a piece: a shape chosen by the generator, as it enters play.
    pub fn random_piece(rng: &mut RandomNumberGenerator) -> (piece: Piece)
        ensures
            piece.is_spawn(),
    {
        let n: i32 = draw_in_range(rng, 0, 7);
        Piece::spawn(Tetromino::from_index(n))
    }

    /// A new session with a generator of its own and two pieces drawn from
    /// it: an empty board, no score, no frame counted, the slowest gravity.
    pub fn new() -> (state: State)
        ensures
            state@ == Session::fresh(state.current, state.next),
            state.current.is_spawn(),
            state.next.is_spawn(),
            state.wf(),
    {
        let mut rng = fresh_generator();
        let current = Self::random_piece(&mut rng);
        let next = Self::random_piece(&mut rng);
        proof {
            lemma_spawn_fits_empty(current.kind);
            lemma_empty_has_no_full_row();
        }
        State {
            board: Board::new(),
            current,
            next,
            rng,
            speed: INITIAL_SPEED,
            frame: 0,
            score: 0,
            game_over: false,
        }
    }

    /// The cells of `piece`, in the order of its shape's offsets, no two of
    /// them the same. The coordinates are 64 bits wide so that every piece
    /// has them, wherever its pivot lies.
    pub fn piece_blocks(piece: &Piece) -> (blocks: [(i64, i64); 4])
        ensures
            forall|i: int|
                0 <= i < 4 ==> (#[trigger] blocks[i]).0 == piece.cells()[i].0 && blocks[i].1
                    == piece.cells()[i].1,
            forall|i: int, j: int| 0 <= i < j < 4 ==> blocks[i] != blocks[j],
    {
        let base = piece.kind.base_shape();
        let rot: i32 = ((piece.rotation % 4) + 4) % 4;
        let mut blocks: [(i64, i64); 4] = [(0, 0);4];
        let mut i: usize = 0;
        while i < 4
            invariant
                i <= 4,
                rot == (piece.rotation as int) % 4,
                forall|k: int|
                    0 <= k < 4 ==> (#[trigger] base[k]).0 == piece.kind.offsets()[k].0 && base[k].1
                        == piece.kind.offsets()[k].1,
                forall|k: int|
                    0 <= k < i ==> (#[trigger] blocks[k]).0 == piece.cells()[k].0 && blocks[k].1
                        == piece.cells()[k].1,
            decreases 4 - i,
        {
            let (bx, by): (i32, i32) = base[i];
            let (rx, ry): (i32, i32) = match rot {
                0 => (bx, by),
                1 => (-by, bx),
                2 => (-bx, -by),
                _ => (by, -bx),
            };
            blocks[i] = (piece.x as i64 + rx as i64, piece.y as i64 + ry as i64);
            i += 1;
        }
        proof {
            lemma_cells_distinct(*piece);
        }
        blocks
    }

    /// Whether one of the cells of `piece` lies above the top row.
    pub fn pokes_above(piece: &Piece) -> (above: bool)
        ensures
            above == piece.pokes_above(),
    {
        let blocks = Self::piece_blocks(piece);
        let mut i: usize = 0;
        while i < 4
            invariant
                i <= 4,
                forall|k: int|
                    0 <= k < 4 ==> (#[trigger] blocks[k]).0 == piece.cells()[k].0 && blocks[k].1
                        == piece.cells()[k].1,
                forall|k: int| 0 <= k < i ==> (#[trigger] piece.cells()[k]).1 >= 0,
            decreases 4 - i,
        {
            if blocks[i].1 < 0 {
                assert(piece.cells()[i as int].1 < 0);
                return true;
            }
            i += 1;
        }
        false
    }

    /// Whether `piece` may be where it is on this session's board: each of
    /// its cells lies between the side walls and above the floor and, where
    /// it is on the board, on a cell that is not settled.
    pub fn is_valid_position(&self, piece: &Piece) -> (valid: bool)
        ensures
            valid == admits(self.board@, *piece),
    {
        let blocks = Self::piece_blocks(piece);
        let mut i: usize = 0;
        while i < 4
            invariant
                i <= 4,
                forall|k: int|
                    0 <= k < 4 ==> (#[trigger] blocks[k]).0 == piece.cells()[k].0 && blocks[k].1
                        == piece.cells()[k].1,
                forall|k: int|
                    0 <= k < i ==> cell_free(
                        self.board@,
                        (#[trigger] piece.cells()[k]).0,
                        piece.cells()[k].1,
                    ),
            decreases 4 - i,
        {
            let (x, y): (i64, i64) = blocks[i];
            if x < 0 || x >= BOARD_WIDTH as i64 || y >= BOARD_HEIGHT as i64 {
                return false;
            }
            if y >= 0 {
                if self.board.get(x as usize, y as usize).is_some() {
                    return false;
                }
            }
            i += 1;
        }
        true
    }

    /// Moves the falling piece by `(dx, dy)` if the board admits it there.
    /// A target that the board does not admit, or whose pivot has no machine
    /// coordinates, leaves the whole state as it was.
    pub fn try_move(&mut self, dx: i32, dy: i32) -> (moved: bool)
        ensures
            moved == old(self)@.can_move(dx as int, dy as int),
            moved ==> *final(self) == (State {
                current: old(self).current.shifted(dx as int, dy as int),
                ..*old(self)
            }),
            !moved ==> *final(self) == *old(self),
    {
        let x: i64 = self.current.x as i64 + dx as i64;
        let y: i64 = self.current.y as i64 + dy as i64;
        if x < i32::MIN as i64 || x > i32::MAX as i64 || y < i32::MIN as i64 || y > i32::MAX as i64 {
            return false;
        }
        let mut target = self.current;
        target.x = x as i32;
        target.y = y as i32;
        if self.is_valid_position(&target) {
            self.current = target;
            true
        } else {
            false
        }
    }

    /// Turns the falling piece by `dr` quarter turns if the board admits it
    /// so, and brings its rotation state back into `0..4`. A turn that the
    /// board does not admit leaves the whole state as it was.
    pub fn try_rotate(&mut self, dr: i32)
        ensures
            old(self)@.can_turn(dr as int) ==> *final(self) == (State {
                current: old(self).current.rotated(dr as int),
                ..*old(self)
            }),
            !old(self)@.can_turn(dr as int) ==> *final(self) == *old(self),
    {
        let sum: i64 = (self.current.rotation as i64 + dr as i64) % 4;
        let mut target = self.current;
        target.rotation = if sum < 0 {
            (sum + 4) as i32
        } else {
            sum as i32
        };
        if self.is_valid_position(&target) {
            self.current = target;
        }
    }

    /// The points for taking out `cleared` rows at once.
    pub fn line_points(cleared: usize) -> (points: u32)
        ensures
            points == line_score(cleared as int),
    {
        match cleared {
            0 => 0,
            1 => 100,
            2 => 300,
            3 => 500,
            _ => 800,
        }
    }

    /// Takes the full rows out of the board, adds the award for them to the
    /// score and, if there were any, shortens the gravity interval by one
    /// tick down to its floor.
    pub fn clear_lines(&mut self)
        requires
            old(self).has_room_for(1),
        ensures
            final(self)@ == old(self)@.cleared(),
            final(self).rng == old(self).rng,
    {
        let cleared: usize = self.board.clear_full_rows();
        if cleared > 0 {
            self.score += Self::line_points(cleared);
            if self.speed > MIN_SPEED {
                self.speed -= 1;
            }
        }
    }

    /// Lets the falling piece fall as far as it can: straight down, row by
    /// row, to the first position from which the board does not admit it one
    /// row further.
    pub fn land(&mut self)
        ensures
            *final(self) == (State {
                current: landing(old(self).board@, old(self).current),
                ..*old(self)
            }),
            final(self).current.y >= old(self).current.y,
            final(self).current == old(self).current.shifted(
                0,
                final(self).current.y - old(self).current.y,
            ),
            !final(self)@.can_move(0, 1),
            admits(old(self).board@, old(self).current) ==> admits(
                final(self).board@,
                final(self).current,
            ),
    {
        assert(self.current == self.current.shifted(0, 0));
        while self.try_move(0, 1)
            invariant
                landing(self.board@, self.current) == landing(old(self).board@, old(self).current),
                *self == (State { current: self.current, ..*old(self) }),
                self.current.y >= old(self).current.y,
                self.current == old(self).current.shifted(0, self.current.y - old(self).current.y),
                admits(old(self).board@, old(self).current) ==> admits(
                    self.board@,
                    self.current,
                ),
            decreases BOARD_HEIGHT + 2 - self.current.y,
        {
            proof {
                lemma_admitted_is_low(self.board@, self.current);
            }
        }
    }

    /// Locks the falling piece where it is, with `drawn` as the piece that
    /// comes into waiting. A piece with a cell above the top row ends the
    /// session and leaves the board alone. Otherwise the piece settles in its
    /// colour, full rows are cleared and paid for, the piece in waiting
    /// becomes the falling piece and `drawn` takes its place; the session is
    /// over if the board does not admit the new falling piece.
    pub fn lock_with(&mut self, drawn: Piece)
        requires
            admits(old(self).board@, old(self).current),
            old(self).has_room_for(1),
        ensures
            final(self)@ == old(self)@.locked(drawn),
            final(self).rng == old(self).rng,
    {
        if Self::pokes_above(&self.current) {
            self.game_over = true;
            return ;
        }
        let blocks = Self::piece_blocks(&self.current);
        let color = self.current.color;
        let mut i: usize = 0;
        while i < 4
            invariant
                i <= 4,
                admits(old(self).board@, self.current),
                !self.current.pokes_above(),
                forall|k: int|
                    0 <= k < 4 ==> (#[trigger] blocks[k]).0 == self.current.cells()[k].0
                        && blocks[k].1 == self.current.cells()[k].1,
                color == self.current.color,
                *self == (State { board: self.board, ..*old(self) }),
                forall|c: int|
                    0 <= c < CELL_COUNT ==> #[trigger] self.board@[c] == (if exists|k: int|
                        0 <= k < i && #[trigger] self.current.cells()[k] == (
                            c % BOARD_WIDTH as int,
                            c / BOARD_WIDTH as int,
                        ) {
                        Some(color)
                    } else {
                        old(self).board@[c]
                    }),
            decreases 4 - i,
        {
            let (x, y): (i64, i64) = blocks[i];
            let ghost before = self.board@;
            assert(cell_free(
                old(self).board@,
                self.current.cells()[i as int].0,
                self.current.cells()[i as int].1,
            ));
            self.board.set(x as usize, y as usize, Some(color));
            proof {
                let at: int = y as int * BOARD_WIDTH as int + x as int;
                assert(self.current.cells()[i as int] == (
                    at % BOARD_WIDTH as int,
                    at / BOARD_WIDTH as int,
                ));
                assert forall|c: int| 0 <= c < CELL_COUNT implies #[trigger] self.board@[c] == (
                if exists|k: int|
                    0 <= k < i + 1 && #[trigger] self.current.cells()[k] == (
                        c % BOARD_WIDTH as int,
                        c / BOARD_WIDTH as int,
                    ) {
                    Some(color)
                } else {
                    old(self).board@[c]
                }) by {
                    if c != at {
                        assert(self.board@[c] == before[c]);
                    }
                }
            }
            i += 1;
        }
        assert(self.board@ =~= settled(old(self).board@, old(self).current));
        self.clear_lines();
        self.current = self.next;
        self.next = drawn;
        if !self.is_valid_position(&self.current) {
            self.game_over = true;
        }
    }

    /// Locks the falling piece where it is and, unless that ends the
    /// session at once, draws the piece that comes into waiting.
    pub fn lock_piece(&mut self)
        requires
            old(self).wf(),
            !old(self).game_over,
            old(self).has_room_for(1),
        ensures
            exists|drawn: Piece|
                drawn.is_spawn() && final(self)@ == #[trigger] old(self)@.locked(drawn),
            old(self).current.pokes_above() ==> final(self).rng == old(self).rng,
            final(self).wf(),
    {
        if Self::pokes_above(&self.current) {
            self.game_over = true;
            assert(self@ == old(self)@.locked(Piece::spawned(Tetromino::I)));
        } else {
            let drawn = Self::random_piece(&mut self.rng);
            self.lock_with(drawn);
            assert(self@ == old(self)@.locked(drawn));
            proof {
                law_cleared_board_has_no_full_row(settled(old(self).board@, old(self).current));
            }
        }
    }

    /// Drops the falling piece as far as it goes and locks it there.
    pub fn hard_drop(&mut self)
        requires
            old(self).wf(),
            !old(self).game_over,
            old(self).has_room_for(1),
        ensures
            exists|drawn: Piece|
                drawn.is_spawn() && final(self)@ == #[trigger] old(self)@.landed().locked(drawn),
            old(self)@.landed().current.pokes_above() ==> final(self).rng == old(self).rng,
            final(self).wf(),
    {
        self.land();
        assert(self@ == old(self)@.landed());
        self.lock_piece();
    }

    /// Carries out the command of one tick, if there is one, and says
    /// whether the driver is asked to quit. A session in play takes every
    /// command but a restart; a session that is over takes only a restart,
    /// which replaces it by a new one. Quitting changes nothing in the
    /// session.
    pub fn process_input(&mut self, command: Option<Command>) -> (quit: bool)
        requires
            old(self).wf(),
            old(self).has_room_for(1),
        ensures
            quit == (command == Some(Command::Quit)),
            exists|a: Piece, b: Piece|
                a.is_spawn() && b.is_spawn() && final(self)@ == #[trigger] old(self)@.applied(
                    command,
                    a,
                    b,
                ),
            !old(self)@.draws_on(command) ==> final(self).rng == old(self).rng,
            old(self)@.ignores(command) ==> *final(self) == *old(self),
            final(self).wf(),
    {
        let ghost idle = Piece::spawned(Tetromino::I);
        match command {
            Some(Command::MoveLeft) => {
                if !self.game_over {
                    self.try_move(-1, 0);
                }
                assert(self@ == old(self)@.applied(command, idle, idle));
                false
            },
            Some(Command::MoveRight) => {
                if !self.game_over {
                    self.try_move(1, 0);
                }
                assert(self@ == old(self)@.applied(command, idle, idle));
                false
            },
            Some(Command::SoftDrop) => {
                if !self.game_over {
                    self.try_move(0, 1);
                }
                assert(self@ == old(self)@.applied(command, idle, idle));
                false
            },
            Some(Command::Rotate) => {
                if !self.game_over {
                    self.try_rotate(1);
                }
                assert(self@ == old(self)@.applied(command, idle, idle));
                false
            },
            Some(Command::HardDrop) => {
                if !self.game_over {
                    self.hard_drop();
                    proof {
                        let drawn = choose|drawn: Piece|
                            drawn.is_spawn() && self@ == #[trigger] old(self)@.landed().locked(
                                drawn,
                            );
                        assert(self@ == old(self)@.applied(command, drawn, idle));
                    }
                } else {
                    assert(self@ == old(self)@.applied(command, idle, idle));
                }
                false
            },
            Some(Command::Restart) => {
                if self.game_over {
                    *self = State::new();
                    assert(self@ == old(self)@.applied(command, self.current, self.next));
                } else {
                    assert(self@ == old(self)@.applied(command, idle, idle));
                }
                false
            },
            Some(Command::Quit) => {
                assert(self@ == old(self)@.applied(command, idle, idle));
                true
            },
            None => {
                assert(self@ == old(self)@.applied(command, idle, idle));
                false
            },
        }
    }

    /// One tick of the session: the command, if there is one, then gravity.
    /// Says whether the driver is asked to quit. Gravity counts the frame of
    /// a session in play, and on each frame that the gravity interval divides
    /// it moves the falling piece down one row, or locks it if it cannot
    /// move.
    pub fn tick(&mut self, command: Option<Command>) -> (quit: bool)
        requires
            old(self).wf(),
            old(self).has_room_for(2),
            old(self).frame < u32::MAX,
        ensures
            quit == (command == Some(Command::Quit)),
            exists|a: Piece, b: Piece, c: Piece|
                a.is_spawn() && b.is_spawn() && c.is_spawn() && final(self)@
                    == #[trigger] old(self)@.ticked(command, a, b, c),
            old(self).game_over && command != Some(Command::Restart) ==> *final(self) == *old(
                self,
            ),
            final(self).wf(),
    {
        let quit = self.process_input(command);
        let ghost (a, b) = choose|a: Piece, b: Piece|
            a.is_spawn() && b.is_spawn() && self@ == #[trigger] old(self)@.applied(command, a, b);
        let ghost mid = self@;
        proof {
            lemma_applied_bounds(old(self)@, command, a, b);
        }
        if !self.game_over {
            self.frame += 1;
            if self.frame % self.speed == 0 {
                if !self.try_move(0, 1) {
                    self.lock_piece();
                    proof {
                        let c = choose|c: Piece|
                            c.is_spawn() && self@ == #[trigger] (Session {
                                frame: mid.frame + 1,
                                ..mid
                            }).locked(c);
                        assert(self@ == old(self)@.ticked(command, a, b, c));
                    }
                } else {
                    assert(self@ == old(self)@.ticked(command, a, b, a));
                }
            } else {
                assert(self@ == old(self)@.ticked(command, a, b, a));
            }
        } else {
            assert(self@ == old(self)@.ticked(command, a, b, a));
        }
        quit
    }
}

} // verus!
