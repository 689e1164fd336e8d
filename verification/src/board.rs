//! The board: nine cells, the player to move, placement and the verdict on
//! who has won.

use vstd::prelude::*;
use crate::mark::{is_mark, mark_of, rival, CROSS, EMPTY, NOUGHT};
use crate::triple::{line_owner, opening, owner};

verus! {

/// Why a placement was refused.
#[derive(Debug, Clone, Copy, PartialEq, Eq, Structural)]
pub enum GrillErr {
    /// The position names none of the nine cells.
    OutOfBox,
    /// The cell already holds a mark.
    AlreadyFilled,
}

/// Where a game stands.
#[derive(Debug, Clone, Copy, PartialEq, Eq, Structural)]
pub enum Outcome {
    /// Nobody has won and a cell is still empty.
    InProgress,
    /// The player given (1 or 2) holds a whole line.
    Win(u8),
    /// Every cell is taken and nobody has won.
    Draw,
}

/// A tic-tac-toe board.
///
/// `cells` is row-major: cell `3 * row + column`. Each cell holds `' '`,
/// `'X'` or `'O'`. `player` is 1 when the next mark is a cross, and anything
/// else when it is a nought.
#[derive(Debug, Clone, Copy)]
pub struct Grill {
    pub cells: [char; 9],
    pub player: u8,
}

/// The mathematical model of a [`Grill`].
pub ghost struct Position {
    pub cells: Seq<char>,
    pub player: u8,
}

impl View for Grill {
    type V = Position;

    open spec fn view(&self) -> Position {
        Position { cells: self.cells@, player: self.player }
    }
}

/// The number of cells of `s` that hold a mark.
pub open spec fn count_filled(s: Seq<char>) -> nat
    decreases s.len(),
{
    if s.len() == 0 {
        0
    } else {
        count_filled(s.drop_last()) + if s.last() != ' ' {
            1nat
        } else {
            0nat
        }
    }
}

/// Whether no cell of the board `s` is empty.
pub open spec fn full(s: Seq<char>) -> bool {
    forall|i: int| 0 <= i < 9 ==> s[i] != ' '
}

/// The three cells `a`, `b`, `c` of the board `s`, in that order.
pub open spec fn cells_at(s: Seq<char>, a: int, b: int, c: int) -> Seq<char> {
    seq![s[a], s[b], s[c]]
}

/// The row through cell `pos`, left to right.
pub open spec fn row_of(s: Seq<char>, pos: int) -> Seq<char> {
    cells_at(s, 3 * (pos / 3), 3 * (pos / 3) + 1, 3 * (pos / 3) + 2)
}

/// The column through cell `pos`, top to bottom.
pub open spec fn column_of(s: Seq<char>, pos: int) -> Seq<char> {
    cells_at(s, pos % 3, pos % 3 + 3, pos % 3 + 6)
}

/// The triple that never belongs to anybody: it stands for the diagonal
/// through a cell that lies on none.
pub open spec fn no_diagonal() -> Seq<char> {
    seq!['0', '0', '0']
}

/// The placeholder is never a won line, and whichever mark looks for a gap
/// in it finds it blocked.
pub proof fn lemma_no_diagonal_is_inert(m: char)
    requires
        m == 'X' || m == 'O',
    ensures
        owner(no_diagonal()) == 0,
        opening(no_diagonal(), m) == 11,
{
}

/// The diagonal through cell `pos`: the one from the top left for cells 0, 4
/// and 8, the one from the top right for the other even positions, and
/// [`no_diagonal`] for odd positions.
pub open spec fn diagonal_of(s: Seq<char>, pos: int) -> Seq<char> {
    if pos % 2 == 1 {
        no_diagonal()
    } else if pos == 0 || pos == 4 || pos == 8 {
        cells_at(s, 0, 4, 8)
    } else {
        cells_at(s, 2, 4, 6)
    }
}

/// The owner of the row that starts at cell `pos`; 0 if no row starts there.
pub open spec fn row_owner_at(s: Seq<char>, pos: int) -> u8 {
    if pos % 3 != 0 {
        0
    } else {
        owner(row_of(s, pos))
    }
}

/// The owner of the column that starts at cell `pos`; 0 if none starts
/// there.
pub open spec fn column_owner_at(s: Seq<char>, pos: int) -> u8 {
    if pos >= 3 {
        0
    } else {
        owner(column_of(s, pos))
    }
}

/// The owner of the diagonal that starts at cell `pos`; 0 if none starts
/// there.
pub open spec fn diagonal_owner_at(s: Seq<char>, pos: int) -> u8 {
    if pos != 0 && pos != 2 {
        0
    } else {
        owner(diagonal_of(s, pos))
    }
}

/// The owner of the first won line among those that start at cell `pos`,
/// taking its row, then its column, then its diagonal.
pub open spec fn owner_from(s: Seq<char>, pos: int) -> u8 {
    if row_owner_at(s, pos) != 0 {
        row_owner_at(s, pos)
    } else if column_owner_at(s, pos) != 0 {
        column_owner_at(s, pos)
    } else {
        diagonal_owner_at(s, pos)
    }
}

/// Whether the cells `a`, `b` and `c` of the board all hold the mark `m`.
pub open spec fn three(s: Seq<char>, a: int, b: int, c: int, m: char) -> bool {
    s[a] == m && s[b] == m && s[c] == m
}

/// Whether one of the eight lines of the board holds the mark `m` three
/// times: a row, a column or a diagonal.
pub open spec fn has_line(s: Seq<char>, m: char) -> bool {
    ||| three(s, 0, 1, 2, m)
    ||| three(s, 3, 4, 5, m)
    ||| three(s, 6, 7, 8, m)
    ||| three(s, 0, 3, 6, m)
    ||| three(s, 1, 4, 7, m)
    ||| three(s, 2, 5, 8, m)
    ||| three(s, 0, 4, 8, m)
    ||| three(s, 2, 4, 6, m)
}

/// The owner of the first won line of the board, the lines taken in the
/// order: top row, left column, diagonal from the top left, middle column,
/// right column, diagonal from the top right, middle row, bottom row. 0 if
/// no line is won.
pub open spec fn winner(s: Seq<char>) -> u8 {
    if owner(cells_at(s, 0, 1, 2)) != 0 {
        owner(cells_at(s, 0, 1, 2))
    } else if owner(cells_at(s, 0, 3, 6)) != 0 {
        owner(cells_at(s, 0, 3, 6))
    } else if owner(cells_at(s, 0, 4, 8)) != 0 {
        owner(cells_at(s, 0, 4, 8))
    } else if owner(cells_at(s, 1, 4, 7)) != 0 {
        owner(cells_at(s, 1, 4, 7))
    } else if owner(cells_at(s, 2, 5, 8)) != 0 {
        owner(cells_at(s, 2, 5, 8))
    } else if owner(cells_at(s, 2, 4, 6)) != 0 {
        owner(cells_at(s, 2, 4, 6))
    } else if owner(cells_at(s, 3, 4, 5)) != 0 {
        owner(cells_at(s, 3, 4, 5))
    } else {
        owner(cells_at(s, 6, 7, 8))
    }
}

/// The state of the game on the board `s`.
pub open spec fn outcome_of(s: Seq<char>) -> Outcome {
    if winner(s) != 0 {
        Outcome::Win(winner(s))
    } else if full(s) {
        Outcome::Draw
    } else {
        Outcome::InProgress
    }
}

impl Position {
    /// The empty board on which `player` moves first.
    pub open spec fn blank(player: u8) -> Position {
        Position { cells: Seq::new(9, |i: int| ' '), player }
    }

    /// Nine cells, each empty or marked by one of the two players.
    pub open spec fn wf(self) -> bool {
        &&& self.cells.len() == 9
        &&& forall|i: int| 0 <= i < 9 ==> is_mark(#[trigger] self.cells[i])
    }

    /// The number of marks on the board.
    pub open spec fn filled(self) -> nat {
        count_filled(self.cells)
    }

    /// Whether `pos`, counted from 1, names an empty cell.
    pub open spec fn accepts(self, pos: int) -> bool {
        1 <= pos <= 9 && self.cells[pos - 1] == ' '
    }

    /// What playing at `pos`, counted from 1, answers.
    pub open spec fn verdict(self, pos: int) -> Result<usize, GrillErr> {
        if pos < 1 || pos > 9 {
            Err(GrillErr::OutOfBox)
        } else if self.cells[pos - 1] != ' ' {
            Err(GrillErr::AlreadyFilled)
        } else {
            Ok(pos as usize)
        }
    }

    /// The board after playing at `pos`, counted from 1: unchanged when the
    /// placement is refused; otherwise the cell holds the mover's mark and
    /// the turn passes to the other player.
    pub open spec fn after(self, pos: int) -> Position {
        if self.accepts(pos) {
            Position {
                cells: self.cells.update(pos - 1, mark_of(self.player as int)),
                player: rival(self.player as int) as u8,
            }
        } else {
            self
        }
    }
}

/// Marking an empty cell adds one to the number of marks.
pub proof fn lemma_count_after_mark(s: Seq<char>, i: int, m: char)
    requires
        0 <= i < s.len(),
        s[i] == ' ',
        m != ' ',
    ensures
        count_filled(s.update(i, m)) == count_filled(s) + 1,
    decreases s.len(),
{
    let t = s.update(i, m);
    if i == s.len() - 1 {
        assert(t.drop_last() =~= s.drop_last());
    } else {
        assert(t.drop_last() =~= s.drop_last().update(i, m));
        lemma_count_after_mark(s.drop_last(), i, m);
    }
}

/// A board of empty cells holds no mark.
pub proof fn lemma_count_blank(s: Seq<char>)
    requires
        forall|i: int| 0 <= i < s.len() ==> s[i] == ' ',
    ensures
        count_filled(s) == 0,
    decreases s.len(),
{
    if s.len() > 0 {
        lemma_count_blank(s.drop_last());
    }
}

/// What [`winner`] answers is sound and complete for the eight lines: it
/// names a player only when that player's mark fills a line, and names
/// nobody exactly when no line is filled by either mark. Where only one of
/// the marks fills a line, the order of the lines is of no account.
pub proof fn lemma_winner_has_line(s: Seq<char>)
    ensures
        winner(s) <= 2,
        winner(s) == 1 ==> has_line(s, 'X'),
        winner(s) == 2 ==> has_line(s, 'O'),
        winner(s) == 0 <==> !has_line(s, 'X') && !has_line(s, 'O'),
        has_line(s, 'X') && !has_line(s, 'O') ==> winner(s) == 1,
        has_line(s, 'O') && !has_line(s, 'X') ==> winner(s) == 2,
{
}

/// The verdict of [`outcome_of`] is sound and complete: a win is declared
/// only for a player whose mark fills one of the eight lines; a board with
/// no filled line is a draw when it is full and in progress when it is not.
pub proof fn lemma_outcome(s: Seq<char>)
    ensures
        outcome_of(s) matches Outcome::Win(who) ==> (who == 1 || who == 2) && has_line(
            s,
            mark_of(who as int),
        ),
        !has_line(s, 'X') && !has_line(s, 'O') && full(s) ==> outcome_of(s) == Outcome::Draw,
        !has_line(s, 'X') && !has_line(s, 'O') && !full(s) ==> outcome_of(s)
            == Outcome::InProgress,
        outcome_of(s) == Outcome::Draw ==> full(s) && !has_line(s, 'X') && !has_line(s, 'O'),
        outcome_of(s) == Outcome::InProgress ==> !full(s) && !has_line(s, 'X') && !has_line(
            s,
            'O',
        ),
{
    lemma_winner_has_line(s);
}

impl Grill {
    /// An empty board on which `player_id` moves first.
    pub fn new(player_id: u8) -> (grill: Self)
        ensures
            grill@ == Position::blank(player_id),
            grill@.wf(),
            grill@.filled() == 0,
    {
        let grill = Self { cells: [EMPTY;9], player: player_id };
        proof {
            assert(grill@.cells =~= Position::blank(player_id).cells);
            lemma_count_blank(grill@.cells);
        }
        grill
    }

    /// Whether every cell holds a mark.
    pub fn is_filled(&mut self) -> (filled: bool)
        ensures
            *final(self) == *old(self),
            filled == full(old(self)@.cells),
    {
        let mut i: usize = 0;
        while i < 9
            invariant
                i <= 9,
                *self == *old(self),
                forall|j: int| 0 <= j < i ==> self@.cells[j] != ' ',
            decreases 9 - i,
        {
            if self.cells[i] == EMPTY {
                return false;
            }
            i += 1;
        }
        true
    }

    /// Places the mark of the player to move in cell `pos`, counted from 1,
    /// and passes the turn.
    ///
    /// A position outside 1..=9 is refused with [`GrillErr::OutOfBox`], a
    /// cell that already holds a mark with [`GrillErr::AlreadyFilled`]; a
    /// refused placement leaves the board as it was.
    pub fn play(&mut self, pos: usize) -> (res: Result<usize, GrillErr>)
        ensures
            res == old(self)@.verdict(pos as int),
            final(self)@ == old(self)@.after(pos as int),
            res is Err ==> *final(self) == *old(self),
            res is Ok ==> final(self)@.filled() == old(self)@.filled() + 1,
            res is Ok ==> final(self)@.player as int == rival(old(self)@.player as int),
            old(self)@.wf() ==> final(self)@.wf(),
            forall|i: int|
                0 <= i < 9 && old(self)@.cells[i] != ' '
                    ==> final(self)@.cells[i] == old(self)@.cells[i],
    {
        if pos > 9 || pos < 1 {
            return Err(GrillErr::OutOfBox);
        }
        if self.cells[pos - 1] != EMPTY {
            return Err(GrillErr::AlreadyFilled);
        }
        if self.player == 1 {
            self.cells[pos - 1] = CROSS;
            self.player = 2;
        } else {
            self.cells[pos - 1] = NOUGHT;
            self.player = 1;
        }
        proof {
            let m = mark_of(old(self)@.player as int);
            lemma_count_after_mark(old(self)@.cells, pos - 1, m);
        }
        Ok(pos)
    }

    /// The row through cell `pos`, left to right.
    pub fn get_line(&mut self, pos: usize) -> (line: [char; 3])
        requires
            pos < 9,
        ensures
            *final(self) == *old(self),
            line@ == row_of(old(self)@.cells, pos as int),
    {
        if pos % 3 == 0 {
            [self.cells[pos], self.cells[pos + 1], self.cells[pos + 2]]
        } else if pos % 3 == 1 {
            [self.cells[pos - 1], self.cells[pos], self.cells[pos + 1]]
        } else {
            [self.cells[pos - 2], self.cells[pos - 1], self.cells[pos]]
        }
    }

    /// The owner of the row that starts at cell `pos`, 0 if it is not won or
    /// no row starts there.
    pub fn check_line(&mut self, pos: usize) -> (who: u8)
        requires
            pos % 3 == 0 ==> pos < 9,
        ensures
            *final(self) == *old(self),
            who == row_owner_at(old(self)@.cells, pos as int),
    {
        if pos % 3 != 0 {
            return 0;
        }
        line_owner(self.get_line(pos))
    }

    /// The column through cell `pos`, top to bottom.
    pub fn get_column(&mut self, pos: usize) -> (column: [char; 3])
        requires
            pos < 9,
        ensures
            *final(self) == *old(self),
            column@ == column_of(old(self)@.cells, pos as int),
    {
        if pos < 3 {
            [self.cells[pos], self.cells[pos + 3], self.cells[pos + 6]]
        } else if pos < 6 {
            [self.cells[pos - 3], self.cells[pos], self.cells[pos + 3]]
        } else {
            [self.cells[pos - 6], self.cells[pos - 3], self.cells[pos]]
        }
    }

    /// The owner of the column that starts at cell `pos`, 0 if it is not won
    /// or no column starts there.
    pub fn check_column(&mut self, pos: usize) -> (who: u8)
        ensures
            *final(self) == *old(self),
            who == column_owner_at(old(self)@.cells, pos as int),
    {
        if pos >= 3 {
            return 0;
        }
        line_owner(self.get_column(pos))
    }

    /// The diagonal through cell `pos`, top to bottom; three `'0'` for a
    /// cell that lies on no diagonal.
    pub fn get_diagonal(&mut self, pos: usize) -> (diagonal: [char; 3])
        ensures
            *final(self) == *old(self),
            diagonal@ == diagonal_of(old(self)@.cells, pos as int),
    {
        if pos % 2 == 1 {
            return ['0', '0', '0'];
        }
        if pos == 0 || pos == 4 || pos == 8 {
            [self.cells[0], self.cells[4], self.cells[8]]
        } else {
            [self.cells[2], self.cells[4], self.cells[6]]
        }
    }

    /// The owner of the diagonal that starts at cell `pos`, 0 if it is not
    /// won or no diagonal starts there.
    pub fn check_diagonal(&mut self, pos: usize) -> (who: u8)
        ensures
            *final(self) == *old(self),
            who == diagonal_owner_at(old(self)@.cells, pos as int),
    {
        if pos != 0 && pos != 2 {
            return 0;
        }
        line_owner(self.get_diagonal(pos))
    }

    /// The four corners: cells 0, 2, 6 and 8.
    pub fn get_corner(&mut self) -> (corners: [char; 4])
        ensures
            *final(self) == *old(self),
            corners@ == seq![
                old(self)@.cells[0],
                old(self)@.cells[2],
                old(self)@.cells[6],
                old(self)@.cells[8],
            ],
    {
        [self.cells[0], self.cells[2], self.cells[6], self.cells[8]]
    }

    /// A copy of the nine cells.
    pub fn get_grill(&mut self) -> (cells: [char; 9])
        ensures
            *final(self) == *old(self),
            cells@ == old(self)@.cells,
    {
        [
            self.cells[0],
            self.cells[1],
            self.cells[2],
            self.cells[3],
            self.cells[4],
            self.cells[5],
            self.cells[6],
            self.cells[7],
            self.cells[8],
        ]
    }

    /// The player who has won: 1, 2, or 0 for nobody.
    ///
    /// All eight lines are examined. Should both marks fill a line, which
    /// alternate play never produces, the first line in the order of
    /// [`winner`] decides.
    pub fn win(&mut self) -> (who: u8)
        ensures
            *final(self) == *old(self),
            who == winner(old(self)@.cells),
            who <= 2,
            who == 1 ==> has_line(old(self)@.cells, 'X'),
            who == 2 ==> has_line(old(self)@.cells, 'O'),
            who == 0 <==> !has_line(old(self)@.cells, 'X') && !has_line(old(self)@.cells, 'O'),
    {
        proof {
            lemma_winner_has_line(self@.cells);
        }
        let mut i: usize = 0;
        while i < 9
            invariant
                i <= 9,
                *self == *old(self),
                forall|j: int| 0 <= j < i ==> #[trigger] owner_from(self@.cells, j) == 0,
            decreases 9 - i,
        {
            let mut ret: u8 = self.check_line(i);
            if ret == 0 {
                ret = self.check_column(i);
            }
            if ret == 0 {
                ret = self.check_diagonal(i);
            }
            if ret != 0 {
                proof {
                    lemma_first_owner(self@.cells, i as int);
                }
                return ret;
            }
            i += 1;
        }
        proof {
            lemma_no_owner(self@.cells);
        }
        0
    }

    /// Where the game stands: won, drawn, or still to be played.
    pub fn outcome(&mut self) -> (state: Outcome)
        ensures
            *final(self) == *old(self),
            state == outcome_of(old(self)@.cells),
            state matches Outcome::Win(who) ==> (who == 1 || who == 2) && has_line(
                old(self)@.cells,
                mark_of(who as int),
            ),
            state == Outcome::Draw <==> full(old(self)@.cells) && !has_line(
                old(self)@.cells,
                'X',
            ) && !has_line(old(self)@.cells, 'O'),
            state == Outcome::InProgress <==> !full(old(self)@.cells) && !has_line(
                old(self)@.cells,
                'X',
            ) && !has_line(old(self)@.cells, 'O'),
    {
        let who = self.win();
        if who != 0 {
            Outcome::Win(who)
        } else if self.is_filled() {
            Outcome::Draw
        } else {
            Outcome::InProgress
        }
    }
}

/// If no line that starts before cell `pos` is won and one that starts at
/// `pos` is, its owner is the winner.
proof fn lemma_first_owner(s: Seq<char>, pos: int)
    requires
        0 <= pos < 9,
        forall|j: int| 0 <= j < pos ==> #[trigger] owner_from(s, j) == 0,
        owner_from(s, pos) != 0,
    ensures
        winner(s) == owner_from(s, pos),
{
    if pos > 0 { assert(owner_from(s, 0) == 0); }
    if pos > 1 { assert(owner_from(s, 1) == 0); }
    if pos > 2 { assert(owner_from(s, 2) == 0); }
    if pos > 3 { assert(owner_from(s, 3) == 0); }
    if pos > 6 { assert(owner_from(s, 6) == 0); }
}

/// If no line that starts at any cell is won, nobody has won.
proof fn lemma_no_owner(s: Seq<char>)
    requires
        forall|j: int| 0 <= j < 9 ==> #[trigger] owner_from(s, j) == 0,
    ensures
        winner(s) == 0,
{
    assert(owner_from(s, 0) == 0);
    assert(owner_from(s, 1) == 0);
    assert(owner_from(s, 2) == 0);
    assert(owner_from(s, 3) == 0);
    assert(owner_from(s, 6) == 0);
}

} // verus!
