//! What holds of the rules as a whole, stated over the same models that the
//! contracts of the functions use.

use crate::board::{
    admits, cell, cell_free, compacted, full_from, full_rows, kept_from, kept_rows, on_board,
    row_full, settled, BOARD_HEIGHT, BOARD_WIDTH, CELL_COUNT,
};
use crate::model::{landing, lemma_admitted_is_low, line_score, Command, Session, MIN_SPEED};
use crate::piece::{Color, Piece};
use crate::session::{lemma_empty_has_no_full_row, lemma_spawn_fits_empty};
use vstd::prelude::*;

verus! {

/// The cells of a piece depend on its shape, its rotation and its position
/// alone, and rotation states that differ by a multiple of four give the same
/// cells.
pub proof fn law_cells_follow_placement(p: Piece, q: Piece)
    requires
        p.kind == q.kind,
        (p.rotation - q.rotation) % 4 == 0,
        p.x == q.x,
        p.y == q.y,
    ensures
        p.cells() == q.cells(),
{
    assert(p.cells() =~= q.cells());
}

/// A piece with a cell beyond a side wall or at or under the floor is not
/// admitted, whatever the board holds.
pub proof fn law_outside_is_rejected(g: Seq<Option<Color>>, p: Piece, i: int)
    requires
        0 <= i < 4,
        p.cells()[i].0 < 0 || p.cells()[i].0 >= BOARD_WIDTH || p.cells()[i].1 >= BOARD_HEIGHT,
    ensures
        !admits(g, p),
{
    assert(!cell_free(g, p.cells()[i].0, p.cells()[i].1));
}

/// A piece with a cell on a settled cell of the board is not admitted.
pub proof fn law_overlap_is_rejected(g: Seq<Option<Color>>, p: Piece, i: int)
    requires
        0 <= i < 4,
        p.cells()[i].1 >= 0,
        cell(g, p.cells()[i].0, p.cells()[i].1) is Some,
    ensures
        !admits(g, p),
{
    assert(!cell_free(g, p.cells()[i].0, p.cells()[i].1));
}

/// A piece that lies between the side walls and wholly above the top row is
/// admitted, whatever the board holds.
pub proof fn law_above_is_admitted(g: Seq<Option<Color>>, p: Piece)
    requires
        forall|i: int|
            0 <= i < 4 ==> 0 <= (#[trigger] p.cells()[i]).0 < BOARD_WIDTH && p.cells()[i].1 < 0,
    ensures
        admits(g, p),
{
}

/// A piece is admitted exactly if each of its cells lies between the side
/// walls and above the floor and, where it is on the board, on an empty cell.
pub proof fn law_admits_cell_by_cell(g: Seq<Option<Color>>, p: Piece)
    ensures
        admits(g, p) <==> forall|i: int|
            0 <= i < 4 ==> {
                let c = #[trigger] p.cells()[i];
                &&& 0 <= c.0 < BOARD_WIDTH
                &&& c.1 < BOARD_HEIGHT
                &&& on_board(c.0, c.1) ==> cell(g, c.0, c.1) is None
            },
{
    if admits(g, p) {
        assert forall|i: int| 0 <= i < 4 implies {
            let c = #[trigger] p.cells()[i];
            &&& 0 <= c.0 < BOARD_WIDTH
            &&& c.1 < BOARD_HEIGHT
            &&& on_board(c.0, c.1) ==> cell(g, c.0, c.1) is None
        } by {
            assert(cell_free(g, p.cells()[i].0, p.cells()[i].1));
        }
    }
}

/// From any row down, the rows that are kept and the rows that are full are
/// all the rows there are; the kept rows are rows of the board that are not
/// full, and they stand in rising order.
pub proof fn lemma_rows_partition(g: Seq<Option<Color>>, u: int)
    requires
        0 <= u <= BOARD_HEIGHT,
    ensures
        0 <= full_from(g, u),
        kept_from(g, u).len() + full_from(g, u) == BOARD_HEIGHT - u,
        forall|j: int|
            0 <= j < kept_from(g, u).len() ==> u <= #[trigger] kept_from(g, u)[j] < BOARD_HEIGHT
                && !row_full(g, kept_from(g, u)[j]),
        forall|i: int, j: int|
            0 <= i < j < kept_from(g, u).len() ==> kept_from(g, u)[i] < kept_from(g, u)[j],
    decreases BOARD_HEIGHT - u,
{
    if u < BOARD_HEIGHT {
        lemma_rows_partition(g, u + 1);
    }
}

/// The rows kept from row `u` down are the last of the rows kept from the
/// top down.
pub proof fn lemma_kept_rows_end_alike(g: Seq<Option<Color>>, u: int)
    requires
        0 <= u <= BOARD_HEIGHT,
    ensures
        kept_from(g, u).len() <= kept_rows(g).len(),
        forall|j: int|
            0 <= j < kept_from(g, u).len() ==> #[trigger] kept_from(g, u)[j] == kept_rows(
                g,
            )[kept_rows(g).len() - kept_from(g, u).len() + j],
    decreases u,
{
    if u > 0 {
        lemma_kept_rows_end_alike(g, u - 1);
        let above = kept_from(g, u - 1);
        let here = kept_from(g, u);
        assert forall|j: int| 0 <= j < here.len() implies #[trigger] here[j] == kept_rows(
            g,
        )[kept_rows(g).len() - here.len() + j] by {
            if row_full(g, u - 1) {
                assert(above[j] == here[j]);
            } else {
                assert(above[j + 1] == here[j]);
            }
        }
    }
}

/// Where no row from `u` to just above `v` is full, as many rows are full
/// from `u` down as from `v` down.
pub proof fn lemma_no_full_row_between(g: Seq<Option<Color>>, u: int, v: int)
    requires
        0 <= u <= v <= BOARD_HEIGHT,
        forall|y: int| u <= y < v ==> !row_full(g, y),
    ensures
        full_from(g, u) == full_from(g, v),
    decreases v - u,
{
    if u < v {
        lemma_no_full_row_between(g, u + 1, v);
    }
}

/// Clearing takes out the full rows and nothing else. As many rows at the
/// top as were full are empty afterwards, and every row that was not full
/// has sunk by the number of full rows that were under it, its cells as they
/// were.
pub proof fn law_rows_sink_past_full_rows(g: Seq<Option<Color>>)
    ensures
        0 <= full_rows(g) <= BOARD_HEIGHT,
        compacted(g).len() == CELL_COUNT,
        forall|x: int, y: int|
            0 <= x < BOARD_WIDTH && 0 <= y < full_rows(g) ==> #[trigger] cell(compacted(g), x, y)
                is None,
        forall|x: int, y: int|
            0 <= x < BOARD_WIDTH && 0 <= y < BOARD_HEIGHT && !row_full(g, y) ==> cell(
                compacted(g),
                x,
                y + full_from(g, y + 1),
            ) == #[trigger] cell(g, x, y),
{
    lemma_rows_partition(g, 0);
    assert forall|x: int, y: int|
        0 <= x < BOARD_WIDTH && 0 <= y < BOARD_HEIGHT && !row_full(g, y) implies cell(
        compacted(g),
        x,
        y + full_from(g, y + 1),
    ) == #[trigger] cell(g, x, y) by {
        lemma_rows_partition(g, y);
        lemma_rows_partition(g, y + 1);
        lemma_kept_rows_end_alike(g, y);
        let at = kept_rows(g).len() - kept_from(g, y).len();
        assert(kept_from(g, y)[0] == y);
        assert(kept_rows(g)[at] == y);
        let r = y + full_from(g, y + 1);
        assert(r == full_rows(g) + at);
        assert((r * BOARD_WIDTH + x) / BOARD_WIDTH as int == r);
        assert((r * BOARD_WIDTH + x) % BOARD_WIDTH as int == x);
    }
    assert forall|x: int, y: int| 0 <= x < BOARD_WIDTH && 0 <= y < full_rows(g) implies #[trigger] cell(
        compacted(g),
        x,
        y,
    ) is None by {
        assert((y * BOARD_WIDTH + x) / BOARD_WIDTH as int == y);
    }
}

/// After clearing, no row of the board is full.
pub proof fn law_cleared_board_has_no_full_row(g: Seq<Option<Color>>)
    ensures
        forall|y: int| 0 <= y < BOARD_HEIGHT ==> !row_full(compacted(g), y),
        full_rows(compacted(g)) == 0,
{
    lemma_rows_partition(g, 0);
    let c = compacted(g);
    assert forall|y: int| 0 <= y < BOARD_HEIGHT implies !row_full(c, y) by {
        if y < full_rows(g) {
            assert((y * BOARD_WIDTH + 0) / BOARD_WIDTH as int == y);
            assert(cell(c, 0, y) is None);
        } else {
            let from = kept_rows(g)[y - full_rows(g)];
            assert(!row_full(g, from));
            let x = choose|x: int| 0 <= x < BOARD_WIDTH && !(#[trigger] cell(g, x, from) is Some);
            assert((y * BOARD_WIDTH + x) / BOARD_WIDTH as int == y);
            assert((y * BOARD_WIDTH + x) % BOARD_WIDTH as int == x);
            assert(cell(c, x, y) == cell(g, x, from));
        }
    }
    lemma_no_full_row_between(c, 0, BOARD_HEIGHT as int);
}

/// Two full rows `a` and `b` among rows that are otherwise not full: after
/// clearing, the two top rows are empty, the rows that were above `a` have
/// moved down by two, the rows between `a` and `b` by one, and the rows under
/// `b` are where they were.
pub proof fn law_two_full_rows(g: Seq<Option<Color>>, a: int, b: int)
    requires
        0 <= a < b < BOARD_HEIGHT,
        forall|y: int| 0 <= y < BOARD_HEIGHT ==> (row_full(g, y) <==> y == a || y == b),
    ensures
        full_rows(g) == 2,
        forall|x: int, y: int|
            0 <= x < BOARD_WIDTH && 0 <= y < 2 ==> #[trigger] cell(compacted(g), x, y) is None,
        forall|x: int, y: int|
            0 <= x < BOARD_WIDTH && 0 <= y < a ==> cell(compacted(g), x, y + 2) == #[trigger] cell(
                g,
                x,
                y,
            ),
        forall|x: int, y: int|
            0 <= x < BOARD_WIDTH && a < y < b ==> cell(compacted(g), x, y + 1) == #[trigger] cell(
                g,
                x,
                y,
            ),
        forall|x: int, y: int|
            0 <= x < BOARD_WIDTH && b < y < BOARD_HEIGHT ==> cell(compacted(g), x, y)
                == #[trigger] cell(g, x, y),
{
    law_rows_sink_past_full_rows(g);
    lemma_no_full_row_between(g, b + 1, BOARD_HEIGHT as int);
    lemma_no_full_row_between(g, a + 1, b);
    lemma_no_full_row_between(g, 0, a);
    assert(full_from(g, b) == 1);
    assert(full_from(g, a) == 2);
    assert forall|x: int, y: int| 0 <= x < BOARD_WIDTH && 0 <= y < a implies cell(
        compacted(g),
        x,
        y + 2,
    ) == #[trigger] cell(g, x, y) by {
        lemma_no_full_row_between(g, y + 1, a);
    }
    assert forall|x: int, y: int| 0 <= x < BOARD_WIDTH && a < y < b implies cell(
        compacted(g),
        x,
        y + 1,
    ) == #[trigger] cell(g, x, y) by {
        lemma_no_full_row_between(g, y + 1, b);
    }
    assert forall|x: int, y: int| 0 <= x < BOARD_WIDTH && b < y < BOARD_HEIGHT implies cell(
        compacted(g),
        x,
        y,
    ) == #[trigger] cell(g, x, y) by {
        lemma_no_full_row_between(g, y + 1, BOARD_HEIGHT as int);
    }
}

/// A move or a turn that the board does not admit changes nothing in the
/// session.
pub proof fn law_rejected_attempt_changes_nothing(s: Session, dx: int, dy: int, dr: int)
    ensures
        !s.can_move(dx, dy) ==> s.moved(dx, dy) == s,
        !s.can_turn(dr) ==> s.turned(dr) == s,
{
}

/// The award for rows taken out at once: 100 for one, 300 for two, 500 for
/// three, 800 for four or more, nothing for none.
pub proof fn law_score_table()
    ensures
        line_score(0) == 0,
        line_score(1) == 100,
        line_score(2) == 300,
        line_score(3) == 500,
        forall|n: int| n >= 4 ==> #[trigger] line_score(n) == 800,
{
}

/// Where every full row from `u` down is one of finitely many given rows,
/// there are no more full rows from `u` down than rows given.
pub proof fn lemma_full_rows_among(g: Seq<Option<Color>>, u: int, rows: Set<int>)
    requires
        0 <= u <= BOARD_HEIGHT,
        rows.finite(),
        forall|y: int| u <= y < BOARD_HEIGHT && row_full(g, y) ==> rows.contains(y),
    ensures
        full_from(g, u) <= rows.len(),
    decreases BOARD_HEIGHT - u,
{
    if u < BOARD_HEIGHT {
        if row_full(g, u) {
            lemma_full_rows_among(g, u + 1, rows.remove(u));
        } else {
            lemma_full_rows_among(g, u + 1, rows);
        }
    }
}

/// A piece that settles on a board without full rows fills at most four
/// rows, and only rows in which it has a cell.
pub proof fn law_one_piece_fills_at_most_four_rows(g: Seq<Option<Color>>, p: Piece)
    requires
        forall|y: int| 0 <= y < BOARD_HEIGHT ==> !row_full(g, y),
    ensures
        0 <= full_rows(settled(g, p)) <= 4,
        forall|y: int|
            0 <= y < BOARD_HEIGHT && row_full(settled(g, p), y) ==> exists|i: int|
                0 <= i < 4 && (#[trigger] p.cells()[i]).1 == y,
{
    let s = settled(g, p);
    let c = p.cells();
    let rows = Set::<int>::empty().insert(c[0].1).insert(c[1].1).insert(c[2].1).insert(c[3].1);
    assert forall|y: int| 0 <= y < BOARD_HEIGHT && row_full(s, y) implies rows.contains(y)
        && exists|i: int| 0 <= i < 4 && (#[trigger] p.cells()[i]).1 == y by {
        assert(!row_full(g, y));
        let x = choose|x: int| 0 <= x < BOARD_WIDTH && !(#[trigger] cell(g, x, y) is Some);
        assert(cell(s, x, y) is Some);
        assert((y * BOARD_WIDTH + x) / BOARD_WIDTH as int == y);
        assert((y * BOARD_WIDTH + x) % BOARD_WIDTH as int == x);
        assert(p.covers(x, y));
        let i = choose|i: int| 0 <= i < 4 && #[trigger] p.cells()[i] == (x, y);
        assert(p.cells()[i].1 == y);
    }
    lemma_full_rows_among(s, 0, rows);
    lemma_rows_partition(s, 0);
}

/// Locking a piece that lies on the board pays once: the score grows by the
/// award for the number of rows that the settled piece has filled, and by
/// nothing else.
pub proof fn law_lock_pays_once(s: Session, drawn: Piece)
    requires
        !s.current.pokes_above(),
    ensures
        s.locked(drawn).score == s.score + line_score(full_rows(settled(s.board, s.current))),
        s.locked(drawn).board == compacted(settled(s.board, s.current)),
        s.locked(drawn).current == s.next,
        s.locked(drawn).next == drawn,
{
}

/// In a session that play reaches, one lock takes out at most four rows, so
/// what it adds to the score is nothing or one entry of the table.
pub proof fn law_lock_awards_one_table_entry(s: Session, drawn: Piece)
    requires
        s.wf(),
    ensures
        0 <= full_rows(settled(s.board, s.current)) <= 4,
        ({
            let award = s.locked(drawn).score - s.score;
            award == 0 || award == 100 || award == 300 || award == 500 || award == 800
        }),
{
    law_one_piece_fills_at_most_four_rows(s.board, s.current);
}

/// Locking a piece with a cell above the top row ends the session and
/// changes nothing else: the board, the pieces, the score and the gravity
/// interval are as they were.
pub proof fn law_lock_above_ends_session(s: Session, drawn: Piece)
    requires
        s.current.pokes_above(),
    ensures
        s.locked(drawn) == (Session { game_over: true, ..s }),
        s.locked(drawn).board == s.board,
{
}

/// A restart is taken only by a session that is over: it gives a new session
/// with the two pieces drawn. A session in play ignores it.
pub proof fn law_restart(s: Session, a: Piece, b: Piece)
    ensures
        s.game_over ==> s.applied(Some(Command::Restart), a, b) == Session::fresh(a, b),
        !s.game_over ==> s.applied(Some(Command::Restart), a, b) == s,
{
}

/// A session that is over stands still under every command but a restart,
/// and under gravity.
pub proof fn law_over_stands_still(s: Session, command: Option<Command>, a: Piece, b: Piece, c: Piece)
    requires
        s.game_over,
        command != Some(Command::Restart),
    ensures
        s.ticked(command, a, b, c) == s,
{
}

/// Within a session the score never falls and the gravity interval never
/// grows nor passes its floor: a tick that is not a restart leaves the score
/// at least as high and the interval at most as long.
pub proof fn law_progress_is_monotone(
    s: Session,
    command: Option<Command>,
    a: Piece,
    b: Piece,
    c: Piece,
)
    requires
        s.wf(),
        !(s.game_over && command == Some(Command::Restart)),
    ensures
        s.ticked(command, a, b, c).score >= s.score,
        MIN_SPEED <= s.ticked(command, a, b, c).speed <= s.speed,
{
    let mid = s.applied(command, a, b);
    assert(mid.score >= s.score && MIN_SPEED <= mid.speed <= s.speed);
}

/// Every state that the rules reach from a well-formed one is well-formed.
pub proof fn law_tick_keeps_sessions_well_formed(
    s: Session,
    command: Option<Command>,
    a: Piece,
    b: Piece,
    c: Piece,
)
    requires
        s.wf(),
        a.is_spawn(),
    ensures
        s.ticked(command, a, b, c).wf(),
{
    if !s.game_over {
        law_landing_is_a_resting_place(s.board, s.current);
    }
    lemma_spawn_fits_empty(a.kind);
    lemma_empty_has_no_full_row();
    let mid = s.applied(command, a, b);
    law_cleared_board_has_no_full_row(settled(s.board, s.landed().current));
    law_cleared_board_has_no_full_row(settled(mid.board, mid.current));
}

/// A piece that falls from where the board admits it comes to rest where
/// the board admits it, straight under where it was, and cannot go one row
/// further.
pub proof fn law_landing_is_a_resting_place(g: Seq<Option<Color>>, p: Piece)
    requires
        admits(g, p),
    ensures
        admits(g, landing(g, p)),
        landing(g, p).y >= p.y,
        landing(g, p) == p.shifted(0, landing(g, p).y - p.y),
        !(landing(g, p).can_shift(0, 1) && admits(g, landing(g, p).shifted(0, 1))),
    decreases BOARD_HEIGHT + 2 - p.y,
{
    if p.can_shift(0, 1) && admits(g, p.shifted(0, 1)) {
        lemma_admitted_is_low(g, p.shifted(0, 1));
        law_landing_is_a_resting_place(g, p.shifted(0, 1));
    }
}

/// On the way down to where it lands, a falling piece is admitted at every
/// row.
pub proof fn law_landing_path_is_free(g: Seq<Option<Color>>, p: Piece, d: int)
    requires
        admits(g, p),
        0 <= d <= landing(g, p).y - p.y,
    ensures
        admits(g, p.shifted(0, d)),
    decreases BOARD_HEIGHT + 2 - p.y,
{
    if d > 0 {
        assert(p.can_shift(0, 1) && admits(g, p.shifted(0, 1)));
        lemma_admitted_is_low(g, p.shifted(0, 1));
        law_landing_is_a_resting_place(g, p.shifted(0, 1));
        law_landing_path_is_free(g, p.shifted(0, 1), d - 1);
        assert(p.shifted(0, 1).shifted(0, d - 1) == p.shifted(0, d));
    } else {
        assert(p.shifted(0, 0) == p);
    }
}

} // verus!
