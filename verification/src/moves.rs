//! What each opponent answers, as a function of the board: the model that
//! the contracts of the opponents speak of.
//!
//! A board is a sequence of nine cells, a cell is counted from 0, and
//! [`NO_CELL`], which is 10, stands for the lack of one.

use vstd::prelude::*;
use crate::board::{cells_at, column_of, full, has_line, row_of, Position};
use crate::mark::{mark_of, rival};
use crate::triple::opening;

verus! {

/// What a search answers when it finds no cell.
pub const NO_CELL: usize = 10;

/// The first empty cell of the board; 0 if the board is full.
pub open spec fn first_empty(s: Seq<char>) -> int {
    if s[0] == ' ' {
        0
    } else if s[1] == ' ' {
        1
    } else if s[2] == ' ' {
        2
    } else if s[3] == ' ' {
        3
    } else if s[4] == ' ' {
        4
    } else if s[5] == ' ' {
        5
    } else if s[6] == ' ' {
        6
    } else if s[7] == ' ' {
        7
    } else if s[8] == ' ' {
        8
    } else {
        0
    }
}

/// The cell that gives the mark `m` the whole line `a`, `b`, `c`, if the
/// line has exactly one such cell; [`NO_CELL`] otherwise.
pub open spec fn gap(s: Seq<char>, a: int, b: int, c: int, m: char) -> int {
    let at = opening(cells_at(s, a, b, c), m);
    if at == 0 {
        a
    } else if at == 1 {
        b
    } else if at == 2 {
        c
    } else {
        10
    }
}

/// The cell with which the mark `m` completes a line at once: the gap of the
/// first line that has one, the lines taken in the order left column, top
/// row, diagonal from the top left, middle column, right column, diagonal
/// from the top right, middle row, bottom row. [`NO_CELL`] if no line has a
/// gap.
pub open spec fn winning_cell_for(s: Seq<char>, m: char) -> int {
    if gap(s, 0, 3, 6, m) < 10 {
        gap(s, 0, 3, 6, m)
    } else if gap(s, 0, 1, 2, m) < 10 {
        gap(s, 0, 1, 2, m)
    } else if gap(s, 0, 4, 8, m) < 10 {
        gap(s, 0, 4, 8, m)
    } else if gap(s, 1, 4, 7, m) < 10 {
        gap(s, 1, 4, 7, m)
    } else if gap(s, 2, 5, 8, m) < 10 {
        gap(s, 2, 5, 8, m)
    } else if gap(s, 2, 4, 6, m) < 10 {
        gap(s, 2, 4, 6, m)
    } else if gap(s, 3, 4, 5, m) < 10 {
        gap(s, 3, 4, 5, m)
    } else {
        gap(s, 6, 7, 8, m)
    }
}

/// The cell with which `player` wins at once; [`NO_CELL`] if there is none.
pub open spec fn winning_cell(s: Seq<char>, player: int) -> int {
    winning_cell_for(s, mark_of(player))
}

/// A winning cell is empty, and the mark placed there fills a line. Where
/// there is no winning cell and the mark has no line yet, no single
/// placement gives it one.
pub proof fn lemma_winning_cell(s: Seq<char>, m: char)
    requires
        s.len() == 9,
        m != ' ',
    ensures
        winning_cell_for(s, m) == 10 || 0 <= winning_cell_for(s, m) < 9,
        winning_cell_for(s, m) < 9 ==> s[winning_cell_for(s, m)] == ' ' && has_line(
            s.update(winning_cell_for(s, m), m),
            m,
        ),
        winning_cell_for(s, m) == 10 && !has_line(s, m) ==> forall|c: int|
            0 <= c < 9 && s[c] == ' ' ==> !has_line(#[trigger] s.update(c, m), m),
{
}

/// The move of the opponent that wins where it can, else blocks, else takes
/// the first empty cell.
pub open spec fn medium_move(s: Seq<char>, player: int) -> int {
    if winning_cell(s, player) < 10 {
        winning_cell(s, player)
    } else if winning_cell(s, rival(player)) < 10 {
        winning_cell(s, rival(player))
    } else {
        first_empty(s)
    }
}

/// The move of the opponent that wins where it can, else blocks, else takes
/// the centre if it is empty, else the first empty cell.
pub open spec fn basic_move(s: Seq<char>, player: int) -> int {
    if winning_cell(s, player) < 10 {
        winning_cell(s, player)
    } else if winning_cell(s, rival(player)) < 10 {
        winning_cell(s, rival(player))
    } else if s[4] == ' ' {
        4
    } else {
        first_empty(s)
    }
}

/// The mark that `player` watches for beside a corner: crosses for player
/// 2, noughts for anybody else. For players 1 and 2 it is the mark of the
/// rival.
pub open spec fn threat_mark(player: int) -> char {
    if player == 2 {
        'X'
    } else {
        'O'
    }
}

/// For the two players of a game, the mark watched for beside a corner is
/// the mark of the rival.
pub proof fn lemma_threat_is_rival(player: int)
    requires
        player == 1 || player == 2,
    ensures
        threat_mark(player) == mark_of(rival(player)),
{
}

/// The cell of corner number `i`: 0, 2, 6 and 8 for the numbers 0 to 3.
pub open spec fn corner_cell(i: int) -> int {
    if i < 2 {
        2 * i
    } else {
        2 + 2 * i
    }
}

/// Whether corner number `i` is empty and the middle of its row does not
/// hold the mark `threat`.
pub open spec fn row_clear(s: Seq<char>, i: int, threat: char) -> bool {
    s[corner_cell(i)] == ' ' && row_of(s, corner_cell(i))[1] != threat
}

/// Whether corner number `i` is empty and neither the middle of its row nor
/// the middle of its column holds the mark `threat`.
pub open spec fn corner_safe(s: Seq<char>, i: int, threat: char) -> bool {
    row_clear(s, i, threat) && column_of(s, corner_cell(i))[1] != threat
}

/// The corner to take.
///
/// It is the first corner, in the order 0, 2, 6, 8, that is safe along its
/// row and its column; failing that, the last corner whose row is clear;
/// failing that, [`NO_CELL`].
pub open spec fn corner_move(s: Seq<char>, player: int) -> int {
    let t = threat_mark(player);
    if corner_safe(s, 0, t) {
        0
    } else if corner_safe(s, 1, t) {
        2
    } else if corner_safe(s, 2, t) {
        6
    } else if corner_safe(s, 3, t) {
        8
    } else if row_clear(s, 3, t) {
        8
    } else if row_clear(s, 2, t) {
        6
    } else if row_clear(s, 1, t) {
        2
    } else if row_clear(s, 0, t) {
        0
    } else {
        10
    }
}

/// A cross in the top left corner, a nought in the centre.
pub open spec fn left_corner_opening() -> Seq<char> {
    seq!['X', ' ', ' ', ' ', 'O', ' ', ' ', ' ', ' ']
}

/// A cross in the top right corner, a nought in the centre.
pub open spec fn right_corner_opening() -> Seq<char> {
    seq![' ', ' ', 'X', ' ', 'O', ' ', ' ', ' ', ' ']
}

/// Crosses in the top left and bottom right corners, a nought in the centre.
pub open spec fn falling_fork() -> Seq<char> {
    seq!['X', ' ', ' ', ' ', 'O', ' ', ' ', ' ', 'X']
}

/// Crosses in the top right and bottom left corners, a nought in the centre.
pub open spec fn rising_fork() -> Seq<char> {
    seq![' ', ' ', 'X', ' ', 'O', ' ', 'X', ' ', ' ']
}

/// The answer to a corner opening, which is the opposite corner: cell 8 to
/// [`left_corner_opening`], cell 6 to [`right_corner_opening`]. [`NO_CELL`]
/// on any other board.
pub open spec fn opening_reply(s: Seq<char>) -> int {
    if s == left_corner_opening() {
        8
    } else if s == right_corner_opening() {
        6
    } else {
        10
    }
}

/// The answer to a corner opening where the board shows one, else the
/// corner to take.
pub open spec fn opposite_corner_move(s: Seq<char>, player: int) -> int {
    if opening_reply(s) < 10 {
        opening_reply(s)
    } else {
        corner_move(s, player)
    }
}

/// Cell 1 on [`falling_fork`] and [`rising_fork`]; on any other board the
/// corner to take, or the first empty cell if there is no such corner.
pub open spec fn place_move(s: Seq<char>, player: int) -> int {
    if s == falling_fork() || s == rising_fork() {
        1
    } else if corner_move(s, player) != 10 {
        corner_move(s, player)
    } else {
        first_empty(s)
    }
}

/// The move of the opponent that knows the corners.
///
/// It wins where it can, else blocks, else answers a corner opening. Failing
/// those, player 1 takes a corner if [`corner_move`] names one. Then comes
/// the centre if it is empty, and last [`place_move`].
pub open spec fn l_move(s: Seq<char>, player: int) -> int {
    if winning_cell(s, player) < 10 {
        winning_cell(s, player)
    } else if winning_cell(s, rival(player)) < 10 {
        winning_cell(s, rival(player))
    } else if opening_reply(s) < 10 {
        opening_reply(s)
    } else if player == 1 && corner_move(s, player) < 10 {
        corner_move(s, player)
    } else if s[4] == ' ' {
        4
    } else {
        place_move(s, player)
    }
}

/// The cell, counted from 0, that opponent `algo_id` names on the board `s`
/// when it plays for `player`. Defined for the opponents 1 to 4, whose move
/// the board decides.
pub open spec fn strategy_move(algo_id: int, s: Seq<char>, player: int) -> int
    recommends
        1 <= algo_id <= 4,
{
    if algo_id == 1 {
        first_empty(s)
    } else if algo_id == 2 {
        medium_move(s, player)
    } else if algo_id == 3 {
        basic_move(s, player)
    } else {
        l_move(s, player)
    }
}

/// On a board with an empty cell, whatever one of the opponents 1 to 4
/// proposes is an empty cell of the board, so that [`Grill::play`] accepts
/// it, whoever is to move.
pub proof fn lemma_strategy_move_accepted(algo_id: int, board: Position, player: int)
    requires
        board.cells.len() == 9,
        !full(board.cells),
        1 <= algo_id <= 4,
    ensures
        0 <= strategy_move(algo_id, board.cells, player) < 9,
        board.cells[strategy_move(algo_id, board.cells, player)] == ' ',
        board.accepts(strategy_move(algo_id, board.cells, player) + 1),
        board.verdict(strategy_move(algo_id, board.cells, player) + 1) is Ok,
{
    lemma_winning_cell(board.cells, mark_of(player));
    lemma_winning_cell(board.cells, mark_of(rival(player)));
}

} // verus!
