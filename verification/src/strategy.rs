//! The rule-based opponents. Each reads the board and names a cell, counted
//! from 0; none changes the board.

use vstd::prelude::*;
use crate::board::{column_of, diagonal_of, full, has_line, row_of, Grill};
use crate::chance::draw;
use crate::mark::{mark_of, other_player, CROSS, EMPTY, NOUGHT};
use crate::moves::{
    basic_move, corner_move, corner_safe, first_empty, l_move, lemma_winning_cell, medium_move,
    opening_reply, opposite_corner_move, place_move, row_clear, threat_mark, winning_cell,
    winning_cell_for, NO_CELL,
};
use crate::triple::{free_space, opening, NOT_YET};

verus! {

/// How many cells [`random_algo`] draws before it stops relying on chance.
pub const DRAWS: usize = 512;

/// Whether the board shows exactly the cells of `pattern`.
pub fn shows(grill: &mut Grill, pattern: [char; 9]) -> (same: bool)
    ensures
        *final(grill) == *old(grill),
        same == (old(grill)@.cells == pattern@),
{
    let mut i: usize = 0;
    while i < 9
        invariant
            i <= 9,
            *grill == *old(grill),
            forall|j: int| 0 <= j < i ==> grill@.cells[j] == pattern@[j],
        decreases 9 - i,
    {
        if grill.cells[i] != pattern[i] {
            return false;
        }
        i += 1;
    }
    assert(grill@.cells =~= pattern@);
    true
}

/// The first empty cell; 0 on a full board.
pub fn stupid_algo(grill: &mut Grill) -> (cell: usize)
    ensures
        *final(grill) == *old(grill),
        cell == first_empty(old(grill)@.cells),
        cell < 9,
        full(old(grill)@.cells) ==> cell == 0,
        !full(old(grill)@.cells) ==> old(grill)@.cells[cell as int] == ' ',
        forall|j: int| 0 <= j < cell ==> old(grill)@.cells[j] != ' ',
{
    let mut i: usize = 0;
    while i < 9
        invariant
            i <= 9,
            *grill == *old(grill),
            forall|j: int| 0 <= j < i ==> grill@.cells[j] != ' ',
        decreases 9 - i,
    {
        if grill.cells[i] == EMPTY {
            return i;
        }
        i += 1;
    }
    0
}

/// Whether none of the lines through cell `pos` has a gap for the mark `m`.
spec fn quiet_at(s: Seq<char>, pos: int, m: char) -> bool {
    &&& opening(column_of(s, pos), m) >= 10
    &&& opening(row_of(s, pos), m) >= 10
    &&& opening(diagonal_of(s, pos), m) >= 10
}

/// The cell with which `player` completes a line at once, or [`NO_CELL`].
///
/// Every cell is visited in turn and the column, the row and the diagonal
/// through it are examined, in that order.
pub fn can_i_win(grill: &mut Grill, player: usize) -> (cell: usize)
    ensures
        *final(grill) == *old(grill),
        cell == winning_cell(old(grill)@.cells, player as int),
        cell < 9 || cell == NO_CELL,
        cell < 9 ==> old(grill)@.cells[cell as int] == ' ' && has_line(
            old(grill)@.cells.update(cell as int, mark_of(player as int)),
            mark_of(player as int),
        ),
{
    let ghost s = grill@.cells;
    let ghost m = mark_of(player as int);
    proof {
        lemma_winning_cell(s, m);
    }
    let mut i: usize = 0;
    while i < 9
        invariant
            i <= 9,
            *grill == *old(grill),
            s == grill@.cells,
            m == mark_of(player as int),
            forall|j: int| 0 <= j < i ==> #[trigger] quiet_at(s, j, m),
        decreases 9 - i,
    {
        let mut ret: usize = free_space(grill.get_column(i), player);
        if ret < NOT_YET {
            proof {
                lemma_gap_in_column(s, i as int, m);
            }
            return i + 3 * ret;
        }
        ret = free_space(grill.get_line(i), player);
        if ret < NOT_YET {
            proof {
                lemma_gap_in_row(s, i as int, m);
            }
            return i + ret;
        }
        ret = free_space(grill.get_diagonal(i), player);
        if ret < NOT_YET {
            proof {
                lemma_gap_in_diagonal(s, i as int, m);
            }
            if i == 2 || i == 6 {
                return i + 2 * ret;
            } else {
                return i + 4 * ret;
            }
        }
        i += 1;
    }
    proof {
        lemma_no_gap(s, m);
    }
    NO_CELL
}

/// A gap found in the column through `pos`, when no line through an earlier
/// cell has one, is the winning cell, and `pos` is the top of that column.
proof fn lemma_gap_in_column(s: Seq<char>, pos: int, m: char)
    requires
        0 <= pos < 9,
        forall|j: int| 0 <= j < pos ==> #[trigger] quiet_at(s, j, m),
        opening(column_of(s, pos), m) < 10,
    ensures
        pos < 3,
        winning_cell_for(s, m) == pos + 3 * opening(column_of(s, pos), m),
{
    if pos >= 3 {
        assert(quiet_at(s, pos - 3, m));
    }
    if pos > 0 {
        assert(quiet_at(s, 0, m));
    }
    if pos > 1 {
        assert(quiet_at(s, 1, m));
    }
}

/// A gap found in the row through `pos`, when neither the column through
/// `pos` nor any line through an earlier cell has one, is the winning cell,
/// and `pos` is the left end of that row.
proof fn lemma_gap_in_row(s: Seq<char>, pos: int, m: char)
    requires
        0 <= pos < 9,
        forall|j: int| 0 <= j < pos ==> #[trigger] quiet_at(s, j, m),
        opening(column_of(s, pos), m) >= 10,
        opening(row_of(s, pos), m) < 10,
    ensures
        pos % 3 == 0,
        winning_cell_for(s, m) == pos + opening(row_of(s, pos), m),
{
    if pos % 3 != 0 {
        assert(quiet_at(s, pos - 1, m));
    }
    if pos > 0 {
        assert(quiet_at(s, 0, m));
        assert(quiet_at(s, 1, m));
        assert(quiet_at(s, 2, m));
    }
    if pos > 3 {
        assert(quiet_at(s, 3, m));
    }
}

/// A gap found in the diagonal through `pos`, when no other line through
/// `pos` or through an earlier cell has one, is the winning cell, and `pos`
/// is the top of that diagonal.
proof fn lemma_gap_in_diagonal(s: Seq<char>, pos: int, m: char)
    requires
        0 <= pos < 9,
        m != ' ',
        forall|j: int| 0 <= j < pos ==> #[trigger] quiet_at(s, j, m),
        opening(column_of(s, pos), m) >= 10,
        opening(row_of(s, pos), m) >= 10,
        opening(diagonal_of(s, pos), m) < 10,
    ensures
        pos == 0 || pos == 2,
        pos == 0 ==> winning_cell_for(s, m) == 4 * opening(diagonal_of(s, pos), m),
        pos == 2 ==> winning_cell_for(s, m) == 2 + 2 * opening(diagonal_of(s, pos), m),
{
    if pos == 4 || pos == 8 {
        assert(quiet_at(s, 0, m));
    }
    if pos == 6 {
        assert(quiet_at(s, 2, m));
    }
    if pos == 2 {
        assert(quiet_at(s, 0, m));
        assert(quiet_at(s, 1, m));
    }
}

/// If no line through any cell has a gap, there is no winning cell.
proof fn lemma_no_gap(s: Seq<char>, m: char)
    requires
        forall|j: int| 0 <= j < 9 ==> #[trigger] quiet_at(s, j, m),
    ensures
        winning_cell_for(s, m) == 10,
{
    assert(quiet_at(s, 0, m));
    assert(quiet_at(s, 1, m));
    assert(quiet_at(s, 2, m));
    assert(quiet_at(s, 3, m));
    assert(quiet_at(s, 6, m));
}

/// Wins at once if `player` can, else blocks the rival's winning cell, else
/// takes the first empty cell.
pub fn medium_algo(my_grill: &mut Grill, player: usize) -> (cell: usize)
    ensures
        *final(my_grill) == *old(my_grill),
        cell == medium_move(old(my_grill)@.cells, player as int),
        cell < 9,
        !full(old(my_grill)@.cells) ==> old(my_grill)@.cells[cell as int] == ' ',
{
    let mut win: usize = can_i_win(my_grill, player);
    if win < NO_CELL {
        return win;
    }
    win = can_i_win(my_grill, other_player(player));
    if win < NO_CELL {
        return win;
    }
    stupid_algo(my_grill)
}

/// As [`medium_algo`], but takes the centre, if it is empty, before falling
/// back on the first empty cell.
pub fn basic_algo(my_grill: &mut Grill, player: usize) -> (cell: usize)
    ensures
        *final(my_grill) == *old(my_grill),
        cell == basic_move(old(my_grill)@.cells, player as int),
        cell < 9,
        !full(old(my_grill)@.cells) ==> old(my_grill)@.cells[cell as int] == ' ',
{
    let mut win: usize = can_i_win(my_grill, player);
    if win < NO_CELL {
        return win;
    }
    win = can_i_win(my_grill, other_player(player));
    if win < NO_CELL {
        return win;
    } else if my_grill.cells[4] == EMPTY {
        return 4;
    }
    stupid_algo(my_grill)
}

/// Chooses a corner, or [`NO_CELL`] if none will do.
///
/// The empty corners are visited in the order 0, 2, 6, 8. One whose row and
/// column both have a middle cell free of the rival's mark is taken at once.
/// One whose row alone is clear is kept in mind, and the last such corner is
/// the answer if no corner was taken.
pub fn aim_corner(my_grill: &mut Grill, player: usize) -> (cell: usize)
    ensures
        *final(my_grill) == *old(my_grill),
        cell == corner_move(old(my_grill)@.cells, player as int),
        cell == 0 || cell == 2 || cell == 6 || cell == 8 || cell == NO_CELL,
        cell != NO_CELL ==> old(my_grill)@.cells[cell as int] == ' ',
{
    let corners = my_grill.get_corner();
    let threat = if player == 2 {
        CROSS
    } else {
        NOUGHT
    };
    let ghost s = my_grill@.cells;
    let mut line: usize = NO_CELL;
    let mut i: usize = 0;
    while i < 4
        invariant
            i <= 4,
            *my_grill == *old(my_grill),
            s == my_grill@.cells,
            threat == threat_mark(player as int),
            corners@ == seq![s[0], s[2], s[6], s[8]],
            forall|j: int| 0 <= j < i ==> !corner_safe(s, j, threat),
            line == NO_CELL || line < i,
            line == NO_CELL ==> forall|j: int| 0 <= j < i ==> !row_clear(s, j, threat),
            line != NO_CELL ==> row_clear(s, line as int, threat) && forall|j: int|
                line < j < i ==> !row_clear(s, j, threat),
        decreases 4 - i,
    {
        if corners[i] == EMPTY {
            let cell: usize = if i < 2 {
                i * 2
            } else {
                2 + i * 2
            };
            let row = my_grill.get_line(cell);
            if row[1] != threat {
                let column = my_grill.get_column(cell);
                if column[1] != threat {
                    return cell;
                }
                line = i;
            }
        }
        i += 1;
    }
    if line != NO_CELL {
        return if line < 2 {
            line * 2
        } else {
            2 + line * 2
        };
    }
    NO_CELL
}

/// Answers a corner opening with the opposite corner: cell 8 to a cross in
/// the top left corner with a nought in the centre, cell 6 to a cross in the
/// top right corner with a nought in the centre. [`NO_CELL`] on any other
/// board.
pub fn answer_opening(my_grill: &mut Grill) -> (cell: usize)
    ensures
        *final(my_grill) == *old(my_grill),
        cell == opening_reply(old(my_grill)@.cells),
        cell == 8 || cell == 6 || cell == NO_CELL,
        cell != NO_CELL ==> old(my_grill)@.cells[cell as int] == ' ',
{
    if shows(my_grill, ['X', ' ', ' ', ' ', 'O', ' ', ' ', ' ', ' ']) {
        return 8;
    }
    if shows(my_grill, [' ', ' ', 'X', ' ', 'O', ' ', ' ', ' ', ' ']) {
        return 6;
    }
    NO_CELL
}

/// Answers a corner opening where the board shows one, and chooses a corner
/// as [`aim_corner`] does where it shows none.
pub fn aim_oposit_corner(my_grill: &mut Grill, player: usize) -> (cell: usize)
    ensures
        *final(my_grill) == *old(my_grill),
        cell == opposite_corner_move(old(my_grill)@.cells, player as int),
        cell < 9 || cell == NO_CELL,
        cell != NO_CELL ==> old(my_grill)@.cells[cell as int] == ' ',
{
    let reply = answer_opening(my_grill);
    if reply < NO_CELL {
        return reply;
    }
    aim_corner(my_grill, player)
}

/// Defends against a fork: with crosses in two opposite corners and a
/// nought in the centre the answer is cell 1. On any other board it is the
/// corner [`aim_corner`] chooses, or the first empty cell if it chooses
/// none.
pub fn place(my_grill: &mut Grill, player: usize) -> (cell: usize)
    ensures
        *final(my_grill) == *old(my_grill),
        cell == place_move(old(my_grill)@.cells, player as int),
        cell < 9,
        !full(old(my_grill)@.cells) ==> old(my_grill)@.cells[cell as int] == ' ',
{
    if shows(my_grill, ['X', ' ', ' ', ' ', 'O', ' ', ' ', ' ', 'X']) {
        return 1;
    }
    if shows(my_grill, [' ', ' ', 'X', ' ', 'O', ' ', 'X', ' ', ' ']) {
        return 1;
    }
    let ret = aim_corner(my_grill, player);
    if ret != NO_CELL {
        return ret;
    }
    stupid_algo(my_grill)
}

/// The opponent that knows the corners.
///
/// It wins at once if it can, else blocks, else answers a corner opening.
/// Failing those, player 1 takes the corner that [`aim_corner`] chooses, if
/// it chooses one. Then comes the centre, if it is empty, and last the
/// answer of [`place`].
pub fn l_algo(my_grill: &mut Grill, player: usize) -> (cell: usize)
    ensures
        *final(my_grill) == *old(my_grill),
        cell == l_move(old(my_grill)@.cells, player as int),
        cell < 9,
        !full(old(my_grill)@.cells) ==> old(my_grill)@.cells[cell as int] == ' ',
{
    let mut win: usize = can_i_win(my_grill, player);
    if win < NO_CELL {
        return win;
    }
    win = can_i_win(my_grill, other_player(player));
    if win < NO_CELL {
        return win;
    }
    win = if player == 1 {
        aim_oposit_corner(my_grill, player)
    } else {
        answer_opening(my_grill)
    };
    if win < NO_CELL {
        return win;
    }
    if my_grill.cells[4] == EMPTY {
        return 4;
    }
    place(my_grill, player)
}

/// Takes a drawn cell if it lies on the board and is empty.
pub fn accept_draw(my_grill: &mut Grill, drawn: usize) -> (cell: Option<usize>)
    ensures
        *final(my_grill) == *old(my_grill),
        cell == if drawn < 9 && old(my_grill)@.cells[drawn as int] == ' ' {
            Some(drawn)
        } else {
            None::<usize>
        },
{
    if drawn < 9 && my_grill.cells[drawn] == EMPTY {
        Some(drawn)
    } else {
        None
    }
}

/// An empty cell found by chance.
///
/// Cells are drawn uniformly from the whole board until one is empty. The
/// board must have an empty cell. After [`DRAWS`] draws without success the
/// answer is the first empty cell, so that the search always ends.
pub fn random_algo(my_grill: &mut Grill) -> (cell: usize)
    requires
        !full(old(my_grill)@.cells),
    ensures
        *final(my_grill) == *old(my_grill),
        cell < 9,
        old(my_grill)@.cells[cell as int] == ' ',
{
    let mut tries: usize = 0;
    while tries < DRAWS
        invariant
            tries <= DRAWS,
            *my_grill == *old(my_grill),
        decreases DRAWS - tries,
    {
        match accept_draw(my_grill, draw(0, 9)) {
            Some(cell) => {
                return cell;
            },
            None => {},
        }
        tries += 1;
    }
    stupid_algo(my_grill)
}

} // verus!
