//! The marks a cell can hold and the two players that place them.

use vstd::prelude::*;

verus! {

/// A cell nobody has played in.
pub const EMPTY: char = ' ';

/// The mark of player 1.
pub const CROSS: char = 'X';

/// The mark of player 2.
pub const NOUGHT: char = 'O';

/// The mark a player places: a cross for player 1, a nought for any other
/// identifier.
pub open spec fn mark_of(player: int) -> char {
    if player == 1 {
        'X'
    } else {
        'O'
    }
}

/// The player who moves after `player`: player 2 after player 1, player 1
/// after anybody else.
pub open spec fn rival(player: int) -> int {
    if player == 1 {
        2
    } else {
        1
    }
}

/// Whether `c` is one of the three values a cell may hold.
pub open spec fn is_mark(c: char) -> bool {
    c == ' ' || c == 'X' || c == 'O'
}

/// Whether `c` is neither empty nor the mark `mine`: on a well-formed board,
/// the mark of the other player.
pub open spec fn foreign(c: char, mine: char) -> bool {
    c != mine && c != ' '
}

/// Computes [`mark_of`].
pub fn player_mark(player: usize) -> (m: char)
    ensures
        m == mark_of(player as int),
{
    if player == 1 {
        CROSS
    } else {
        NOUGHT
    }
}

/// Computes [`rival`].
pub fn other_player(player: usize) -> (p: usize)
    ensures
        p == rival(player as int),
{
    if player == 1 {
        2
    } else {
        1
    }
}

} // verus!
