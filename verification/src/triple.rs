//! Evaluation of one line of three cells: who owns it, and whether a player
//! can complete it with one more mark.

use vstd::prelude::*;
use crate::mark::{foreign, mark_of, player_mark, CROSS, EMPTY, NOUGHT};

verus! {

/// Result of [`free_space`] when the line still needs more than one mark, or
/// none at all.
pub const NOT_YET: usize = 10;

/// Result of [`free_space`] when the line holds a mark that is not the
/// player's.
pub const BLOCKED: usize = 11;

/// The player who holds all three cells of `t`: 1 for three crosses, 2 for
/// three noughts, 0 when the line is not won.
pub open spec fn owner(t: Seq<char>) -> u8 {
    if t[0] == 'X' && t[1] == 'X' && t[2] == 'X' {
        1
    } else if t[0] == 'O' && t[1] == 'O' && t[2] == 'O' {
        2
    } else {
        0
    }
}

/// Where in the line `t` the mark `mine` would complete three in a row.
///
/// A line with a foreign mark is [`BLOCKED`]. Otherwise, if exactly two cells
/// hold `mine` and the third is empty, the result is the position (0, 1 or 2)
/// of the empty cell. Every other line is [`NOT_YET`].
pub open spec fn opening(t: Seq<char>, mine: char) -> int {
    if foreign(t[0], mine) || foreign(t[1], mine) || foreign(t[2], mine) {
        11
    } else if t[0] == ' ' && t[1] == mine && t[2] == mine {
        0
    } else if t[0] == mine && t[1] == ' ' && t[2] == mine {
        1
    } else if t[0] == mine && t[1] == mine && t[2] == ' ' {
        2
    } else {
        10
    }
}

/// Tells which player, if any, has won the line.
pub fn line_owner(line: [char; 3]) -> (who: u8)
    ensures
        who == owner(line@),
{
    if line[0] == CROSS && line[1] == CROSS && line[2] == CROSS {
        1
    } else if line[0] == NOUGHT && line[1] == NOUGHT && line[2] == NOUGHT {
        2
    } else {
        0
    }
}

/// Looks for the one empty cell that would give `player` the whole line.
///
/// Returns the position of that cell within the line, [`BLOCKED`] if the
/// line holds a foreign mark, and [`NOT_YET`] otherwise.
pub fn free_space(array: [char; 3], player: usize) -> (space: usize)
    ensures
        space == opening(array@, mark_of(player as int)),
        space < 3 || space == NOT_YET || space == BLOCKED,
        space < 3 ==> array@[space as int] == ' ',
{
    let mine = player_mark(player);
    let mut space: usize = NOT_YET;
    let mut spaces: usize = 0;
    let mut i: usize = 0;
    while i < 3
        invariant
            i <= 3,
            mine == mark_of(player as int),
            spaces <= i,
            forall|j: int| 0 <= j < i ==> !foreign(#[trigger] array@[j], mine),
            spaces == 0 ==> space == NOT_YET && forall|j: int|
                0 <= j < i ==> #[trigger] array@[j] == mine,
            spaces == 1 ==> space < i && array@[space as int] == ' ' && forall|j: int|
                0 <= j < i && j != space ==> #[trigger] array@[j] == mine,
            spaces >= 2 ==> exists|j: int, k: int|
                0 <= j < k < i && #[trigger] array@[j] == ' ' && #[trigger] array@[k] == ' ',
        decreases 3 - i,
    {
        let ch = array[i];
        if ch != mine && ch != EMPTY {
            return BLOCKED;
        } else if ch == EMPTY {
            space = i;
            spaces = spaces + 1;
        }
        i = i + 1;
    }
    if spaces == 1 {
        space
    } else {
        NOT_YET
    }
}

} // verus!
