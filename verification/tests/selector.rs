use tictactoe::{
    algo_move, basic_algo, choose_algo, l_algo, medium_algo, pick_algo, stupid_algo, Grill,
    ALGO_NBR,
};

fn board(cells: [char; 9]) -> Grill {
    Grill { cells, player: 1 }
}

const BOARDS: [[char; 9]; 5] = [
    [' ', ' ', ' ', ' ', ' ', ' ', ' ', ' ', ' '],
    ['X', ' ', ' ', ' ', 'O', ' ', ' ', ' ', ' '],
    ['X', 'X', ' ', ' ', 'O', ' ', ' ', ' ', ' '],
    ['X', ' ', 'O', ' ', ' ', ' ', 'O', ' ', 'X'],
    ['X', 'O', 'X', 'X', 'O', 'O', 'O', 'X', ' '],
];

#[test]
fn choose_algo_asks_the_opponent_and_counts_from_one() {
    for cells in BOARDS {
        for player in [1, 2] {
            let mut grill = board(cells);
            assert_eq!(choose_algo(1, &mut grill, player), stupid_algo(&mut grill) + 1);
            assert_eq!(choose_algo(2, &mut grill, player), medium_algo(&mut grill, player) + 1);
            assert_eq!(choose_algo(3, &mut grill, player), basic_algo(&mut grill, player) + 1);
            assert_eq!(choose_algo(4, &mut grill, player), l_algo(&mut grill, player) + 1);
            assert_eq!(grill.cells, cells);
        }
    }
}

#[test]
fn choose_algo_gives_exact_positions() {
    let mut grill = board(['X', 'X', ' ', ' ', 'O', ' ', ' ', ' ', ' ']);
    assert_eq!(choose_algo(1, &mut grill, 1), 3);
    assert_eq!(choose_algo(2, &mut grill, 1), 3);
    let mut grill = Grill::new(1);
    assert_eq!(choose_algo(1, &mut grill, 1), 1);
    assert_eq!(choose_algo(3, &mut grill, 1), 5);
    assert_eq!(choose_algo(4, &mut grill, 1), 1);
    assert_eq!(choose_algo(4, &mut grill, 2), 5);
}

#[test]
fn choose_algo_plays_at_random_for_the_fifth_opponent() {
    for cells in BOARDS {
        let mut grill = board(cells);
        for _ in 0..50 {
            let pos = choose_algo(5, &mut grill, 2);
            assert!((1..=9).contains(&pos));
            assert_eq!(cells[pos - 1], ' ');
            assert_eq!(grill.cells, cells);
        }
    }
}

#[test]
fn choose_algo_moves_as_one_of_the_first_four_for_an_unknown_number() {
    for algo_id in [0, 6, 7, 99, usize::MAX] {
        for cells in BOARDS {
            for player in [1, 2] {
                let mut grill = board(cells);
                let moves = [
                    stupid_algo(&mut grill) + 1,
                    medium_algo(&mut grill, player) + 1,
                    basic_algo(&mut grill, player) + 1,
                    l_algo(&mut grill, player) + 1,
                ];
                for _ in 0..50 {
                    let pos = choose_algo(algo_id, &mut grill, player);
                    assert!(moves.contains(&pos));
                    assert_eq!(cells[pos - 1], ' ');
                    assert_eq!(grill.cells, cells);
                }
            }
        }
    }
}

#[test]
fn choose_algo_with_an_unknown_number_takes_the_cell_all_four_agree_on() {
    let mut grill = Grill::new(1);
    assert_eq!(grill.play(1), Ok(1));
    assert_eq!(grill.play(5), Ok(5));
    assert_eq!(grill.play(2), Ok(2));
    assert_eq!(grill.cells, ['X', 'X', ' ', ' ', 'O', ' ', ' ', ' ', ' ']);
    for algo_id in 1..=4 {
        assert_eq!(choose_algo(algo_id, &mut grill, 1), 3);
    }
    for _ in 0..200 {
        assert_eq!(choose_algo(6, &mut grill, 1), 3);
        assert_eq!(choose_algo(0, &mut grill, 1), 3);
    }
}

#[test]
fn choose_algo_with_an_unknown_number_answers_on_a_full_board() {
    let mut grill = board(['X', 'O', 'X', 'X', 'O', 'O', 'O', 'X', 'X']);
    for _ in 0..50 {
        assert_eq!(choose_algo(6, &mut grill, 1), 1);
        assert_eq!(choose_algo(0, &mut grill, 2), 1);
    }
}

#[test]
fn choose_algo_proposes_what_play_accepts() {
    for algo_id in 0..=7 {
        for cells in BOARDS {
            let mut grill = board(cells);
            let pos = choose_algo(algo_id, &mut grill, 2);
            assert_eq!(grill.play(pos), Ok(pos));
        }
    }
}

#[test]
fn pick_algo_keeps_a_number_that_names_an_opponent() {
    assert_eq!(ALGO_NBR, 5);
    for algo_id in 1..=5 {
        assert_eq!(pick_algo(algo_id), algo_id);
    }
}

#[test]
fn pick_algo_draws_among_the_first_four_otherwise() {
    let mut seen = [false; 6];
    for algo_id in [0, 6, 7, usize::MAX] {
        for _ in 0..200 {
            let id = pick_algo(algo_id);
            assert!((1..=4).contains(&id));
            seen[id] = true;
        }
    }
    assert!(seen.iter().filter(|s| **s).count() >= 2);
}

#[test]
fn an_unknown_number_moves_as_one_of_the_first_four_opponents() {
    for algo_id in [6, 0, 42] {
        for cells in BOARDS {
            for player in [1, 2] {
                let mut grill = board(cells);
                let moves = [
                    stupid_algo(&mut grill) + 1,
                    medium_algo(&mut grill, player) + 1,
                    basic_algo(&mut grill, player) + 1,
                    l_algo(&mut grill, player) + 1,
                ];
                for _ in 0..100 {
                    let (id, pos) = algo_move(algo_id, &mut grill, player);
                    assert!((1..=4).contains(&id));
                    assert_eq!(pos, moves[id - 1]);
                    assert_eq!(grill.cells, cells);
                }
            }
        }
    }
}

#[test]
fn a_known_number_moves_as_its_opponent() {
    for cells in BOARDS {
        let mut grill = board(cells);
        for algo_id in 1..=4 {
            let (id, pos) = algo_move(algo_id, &mut grill, 2);
            assert_eq!(id, algo_id);
            assert_eq!(pos, choose_algo(algo_id, &mut grill, 2));
        }
        let (id, pos) = algo_move(5, &mut grill, 2);
        assert_eq!(id, 5);
        assert_eq!(cells[pos - 1], ' ');
    }
}

#[test]
fn two_opponents_play_a_whole_game() {
    for first in 1..=4 {
        for second in 1..=4 {
            let mut grill = Grill::new(1);
            let mut turns = 0;
            while grill.win() == 0 && !grill.is_filled() {
                let algo_id = if grill.player == 1 { first } else { second };
                let player = grill.player as usize;
                let pos = choose_algo(algo_id, &mut grill, player);
                assert_eq!(grill.play(pos), Ok(pos));
                turns += 1;
                assert!(turns <= 9);
            }
        }
    }
}
