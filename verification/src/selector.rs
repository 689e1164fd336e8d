//! Choosing an opponent by number and asking it for a move.

use vstd::prelude::*;
use crate::board::{full, Grill};
use crate::chance::draw;
use crate::moves::strategy_move;
use crate::strategy::{basic_algo, l_algo, medium_algo, random_algo, stupid_algo};

verus! {

/// The number of opponents: 1 takes the first empty cell, 2 wins or blocks,
/// 3 also likes the centre, 4 also knows the corners, 5 plays at random.
pub const ALGO_NBR: usize = 5;

/// Settles which opponent a number stands for: itself if it names one of
/// the [`ALGO_NBR`] opponents, and otherwise one of the opponents 1 to 4,
/// drawn at random. The random opponent is never drawn.
pub fn pick_algo(algo_id: usize) -> (id: usize)
    ensures
        1 <= algo_id <= ALGO_NBR ==> id == algo_id,
        !(1 <= algo_id <= ALGO_NBR) ==> 1 <= id <= 4,
{
    if algo_id < 1 || algo_id > ALGO_NBR {
        draw(1, ALGO_NBR)
    } else {
        algo_id
    }
}

/// Asks opponent `algo_id` where `player` should play and answers with the
/// position counted from 1, as [`Grill::play`] takes it.
///
/// The opponents 1 to 4 decide by the board alone. Opponent [`ALGO_NBR`]
/// draws an empty cell at random, for which the board must have one. A
/// number that names no opponent is settled as [`pick_algo`] settles it, so
/// that the answer is the move of one of the opponents 1 to 4 on this board
/// and never a cell that only chance could give.
pub fn choose_algo(algo_id: usize, grill: &mut Grill, player: usize) -> (pos: usize)
    requires
        algo_id == ALGO_NBR ==> !full(old(grill)@.cells),
    ensures
        *final(grill) == *old(grill),
        1 <= pos <= 9,
        1 <= algo_id <= 4 ==> pos == strategy_move(
            algo_id as int,
            old(grill)@.cells,
            player as int,
        ) + 1,
        !(1 <= algo_id <= ALGO_NBR) ==> exists|k: int|
            1 <= k <= 4 && pos == #[trigger] strategy_move(k, old(grill)@.cells, player as int)
                + 1,
        !full(old(grill)@.cells) ==> old(grill)@.accepts(pos as int),
{
    let id = pick_algo(algo_id);
    let cell: usize = if id == 1 {
        stupid_algo(grill)
    } else if id == 2 {
        medium_algo(grill, player)
    } else if id == 3 {
        basic_algo(grill, player)
    } else if id == 4 {
        l_algo(grill, player)
    } else {
        random_algo(grill)
    };
    proof {
        if id != ALGO_NBR {
            assert(cell == strategy_move(id as int, old(grill)@.cells, player as int));
        }
    }
    cell + 1
}

/// Settles the opponent as [`pick_algo`] does and asks it for a move as
/// [`choose_algo`] does. Answers with the opponent settled on, for the
/// caller to keep for the rest of the game, and the position counted from 1.
///
/// A number that names no opponent thus always leads to the move of one of
/// the opponents 1 to 4 on this board.
pub fn algo_move(algo_id: usize, grill: &mut Grill, player: usize) -> (res: (usize, usize))
    requires
        algo_id == ALGO_NBR ==> !full(old(grill)@.cells),
    ensures
        *final(grill) == *old(grill),
        1 <= algo_id <= ALGO_NBR ==> res.0 == algo_id,
        !(1 <= algo_id <= ALGO_NBR) ==> 1 <= res.0 <= 4,
        1 <= res.1 <= 9,
        res.0 != ALGO_NBR ==> res.1 == strategy_move(
            res.0 as int,
            old(grill)@.cells,
            player as int,
        ) + 1,
        !(1 <= algo_id <= ALGO_NBR) ==> exists|k: int|
            1 <= k <= 4 && res.1 == #[trigger] strategy_move(k, old(grill)@.cells, player as int)
                + 1,
        !full(old(grill)@.cells) ==> old(grill)@.accepts(res.1 as int),
{
    let id = pick_algo(algo_id);
    let pos = choose_algo(id, grill, player);
    (id, pos)
}

} // verus!
