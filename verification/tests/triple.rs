use tictactoe::{free_space, line_owner, BLOCKED, NOT_YET};

#[test]
fn line_owner_wants_three_of_a_kind() {
    assert_eq!(line_owner(['X', 'X', 'X']), 1);
    assert_eq!(line_owner(['O', 'O', 'O']), 2);
    assert_eq!(line_owner([' ', ' ', ' ']), 0);
    assert_eq!(line_owner(['0', '0', '0']), 0);
    assert_eq!(line_owner(['X', 'X', 'O']), 0);
    assert_eq!(line_owner(['X', 'O', 'X']), 0);
    assert_eq!(line_owner(['O', 'X', 'X']), 0);
    assert_eq!(line_owner(['O', 'O', ' ']), 0);
}

#[test]
fn free_space_names_the_missing_cell() {
    assert_eq!(free_space([' ', 'X', 'X'], 1), 0);
    assert_eq!(free_space(['X', ' ', 'X'], 1), 1);
    assert_eq!(free_space(['X', 'X', ' '], 1), 2);
    assert_eq!(free_space([' ', 'O', 'O'], 2), 0);
    assert_eq!(free_space(['O', ' ', 'O'], 2), 1);
    assert_eq!(free_space(['O', 'O', ' '], 2), 2);
}

#[test]
fn free_space_is_blocked_by_a_foreign_mark() {
    assert_eq!(BLOCKED, 11);
    assert_eq!(free_space(['X', 'X', 'O'], 1), BLOCKED);
    assert_eq!(free_space(['O', ' ', 'X'], 1), BLOCKED);
    assert_eq!(free_space([' ', 'O', ' '], 1), BLOCKED);
    assert_eq!(free_space([' ', ' ', 'O'], 1), BLOCKED);
    assert_eq!(free_space(['X', 'X', ' '], 2), BLOCKED);
    assert_eq!(free_space(['0', '0', '0'], 1), BLOCKED);
    assert_eq!(free_space(['0', '0', '0'], 2), BLOCKED);
}

#[test]
fn free_space_waits_for_a_second_mark() {
    assert_eq!(NOT_YET, 10);
    assert_eq!(free_space([' ', ' ', ' '], 1), NOT_YET);
    assert_eq!(free_space(['X', ' ', ' '], 1), NOT_YET);
    assert_eq!(free_space([' ', 'X', ' '], 1), NOT_YET);
    assert_eq!(free_space([' ', ' ', 'O'], 2), NOT_YET);
    assert_eq!(free_space(['X', 'X', 'X'], 1), NOT_YET);
    assert_eq!(free_space(['O', 'O', 'O'], 2), NOT_YET);
}

#[test]
fn free_space_takes_any_other_identifier_for_noughts() {
    assert_eq!(free_space(['O', 'O', ' '], 0), 2);
    assert_eq!(free_space(['O', 'O', ' '], 3), 2);
    assert_eq!(free_space(['X', 'X', ' '], 3), BLOCKED);
}
