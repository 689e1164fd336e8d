//! What holds of a board after any run of placements.

use vstd::prelude::*;
use crate::board::{lemma_count_after_mark, lemma_count_blank, GrillErr, Position};
use crate::mark::{mark_of, rival};

verus! {

/// The board reached from `start` by playing at each position of `moves` in
/// turn. A refused placement leaves the board as it was.
pub open spec fn replay(start: Position, moves: Seq<int>) -> Position
    decreases moves.len(),
{
    if moves.len() == 0 {
        start
    } else {
        replay(start, moves.drop_last()).after(moves.last())
    }
}

/// How many of the placements `moves`, played in turn from `start`, were
/// accepted.
pub open spec fn accepted(start: Position, moves: Seq<int>) -> nat
    decreases moves.len(),
{
    if moves.len() == 0 {
        0
    } else {
        let before = replay(start, moves.drop_last());
        accepted(start, moves.drop_last()) + if before.accepts(moves.last()) {
            1nat
        } else {
            0nat
        }
    }
}

/// The player to move once the first player, `first`, and the rival have
/// made `placed` placements between them.
pub open spec fn mover_after(first: u8, placed: nat) -> int {
    if placed == 0 {
        first as int
    } else if placed % 2 == 0 {
        rival(rival(first as int))
    } else {
        rival(first as int)
    }
}

/// After any run of attempts on a fresh board, the marks on the board are as
/// many as the placements that were accepted, every cell holds a legal
/// value, and the player to move is the one who did not make the last
/// accepted placement.
pub proof fn lemma_marks_count_placements(first: u8, moves: Seq<int>)
    ensures
        replay(Position::blank(first), moves).wf(),
        replay(Position::blank(first), moves).filled() == accepted(Position::blank(first), moves),
        replay(Position::blank(first), moves).player as int == mover_after(
            first,
            accepted(Position::blank(first), moves),
        ),
    decreases moves.len(),
{
    let start = Position::blank(first);
    if moves.len() == 0 {
        lemma_count_blank(start.cells);
    } else {
        let before = replay(start, moves.drop_last());
        let pos = moves.last();
        lemma_marks_count_placements(first, moves.drop_last());
        if before.accepts(pos) {
            lemma_count_after_mark(before.cells, pos - 1, mark_of(before.player as int));
        }
    }
}

/// The number of cells of `s` that hold the mark `m`.
pub open spec fn count_mark(s: Seq<char>, m: char) -> nat
    decreases s.len(),
{
    if s.len() == 0 {
        0
    } else {
        count_mark(s.drop_last(), m) + if s.last() == m {
            1nat
        } else {
            0nat
        }
    }
}

/// Placing the mark `m` in an empty cell adds one to the cells that hold
/// `m` and leaves the number of cells that hold any other mark as it was.
pub proof fn lemma_count_mark_after(s: Seq<char>, i: int, m: char, c: char)
    requires
        0 <= i < s.len(),
        s[i] == ' ',
        c != ' ',
    ensures
        count_mark(s.update(i, m), c) == count_mark(s, c) + if c == m {
            1nat
        } else {
            0nat
        },
    decreases s.len(),
{
    let t = s.update(i, m);
    if i == s.len() - 1 {
        assert(t.drop_last() =~= s.drop_last());
    } else {
        assert(t.drop_last() =~= s.drop_last().update(i, m));
        lemma_count_mark_after(s.drop_last(), i, m, c);
    }
}

/// No cell of an empty board holds the mark `c`.
pub proof fn lemma_count_mark_blank(s: Seq<char>, c: char)
    requires
        c != ' ',
        forall|i: int| 0 <= i < s.len() ==> s[i] == ' ',
    ensures
        count_mark(s, c) == 0,
    decreases s.len(),
{
    if s.len() > 0 {
        lemma_count_mark_blank(s.drop_last(), c);
    }
}

/// After any run of attempts on a fresh board the two players have placed
/// in turn: of the accepted placements the first player made every other
/// one, beginning with the first, so that the two marks never differ in
/// number by more than one.
pub proof fn lemma_marks_balanced(first: u8, moves: Seq<int>)
    ensures
        count_mark(replay(Position::blank(first), moves).cells, mark_of(first as int))
            == (accepted(Position::blank(first), moves) + 1) / 2,
        count_mark(replay(Position::blank(first), moves).cells, mark_of(rival(first as int)))
            == accepted(Position::blank(first), moves) / 2,
    decreases moves.len(),
{
    let start = Position::blank(first);
    let mine = mark_of(first as int);
    let other = mark_of(rival(first as int));
    if moves.len() == 0 {
        lemma_count_mark_blank(start.cells, mine);
        lemma_count_mark_blank(start.cells, other);
    } else {
        let before = replay(start, moves.drop_last());
        let pos = moves.last();
        lemma_marks_balanced(first, moves.drop_last());
        lemma_marks_count_placements(first, moves.drop_last());
        if before.accepts(pos) {
            let m = mark_of(before.player as int);
            lemma_count_mark_after(before.cells, pos - 1, m, mine);
            lemma_count_mark_after(before.cells, pos - 1, m, other);
        }
    }
}

/// Each accepted placement passes the turn: after it, the player to move is
/// the rival of the one who placed. A refused placement changes nothing.
pub proof fn lemma_turn_passes(before: Position, pos: int)
    ensures
        before.verdict(pos) is Ok <==> before.accepts(pos),
        before.verdict(pos) is Ok ==> before.after(pos).player as int == rival(
            before.player as int,
        ),
        before.verdict(pos) is Err ==> before.after(pos) == before,
{
}

/// A mark, once placed, stays: no placement empties or changes a cell that
/// holds one.
pub proof fn lemma_marks_stay(before: Position, pos: int, cell: int)
    requires
        before.cells.len() == 9,
        0 <= cell < 9,
        before.cells[cell] != ' ',
    ensures
        before.after(pos).cells[cell] == before.cells[cell],
{
}

/// Playing a second time at a position on the board is always refused
/// because the cell is taken, whether the first placement was accepted or
/// not, and the refusal leaves the board as the first placement left it.
pub proof fn lemma_second_play_refused(before: Position, pos: int)
    requires
        before.cells.len() == 9,
        1 <= pos <= 9,
    ensures
        before.after(pos).verdict(pos) == Err::<usize, GrillErr>(GrillErr::AlreadyFilled),
        before.after(pos).after(pos) == before.after(pos),
{
}

} // verus!
