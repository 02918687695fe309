use connect_four::{MoveError, Player};

#[test]
fn from_int_decodes_one_and_two() {
    assert_eq!(Player::from_int(1), Player::One);
    assert_eq!(Player::from_int(2), Player::Two);
}

#[test]
fn from_int_maps_zero_to_nobody() {
    assert_eq!(Player::from_int(0), Player::Nobody);
}

#[test]
fn from_int_maps_every_other_code_to_nobody() {
    for code in 3..=255u8 {
        assert_eq!(Player::from_int(code), Player::Nobody);
    }
}

#[test]
fn to_int_gives_the_codes() {
    assert_eq!(Player::Nobody.to_int(), 0);
    assert_eq!(Player::One.to_int(), 1);
    assert_eq!(Player::Two.to_int(), 2);
}

#[test]
fn from_int_undoes_to_int() {
    for player in [Player::Nobody, Player::One, Player::Two] {
        assert_eq!(Player::from_int(player.to_int()), player);
    }
}

#[test]
fn from_int_undoes_the_cast() {
    for player in [Player::Nobody, Player::One, Player::Two] {
        assert_eq!(player as u8, player.to_int());
        assert_eq!(Player::from_int(player as u8), player);
    }
}

#[test]
fn to_int_undoes_from_int_on_the_three_codes() {
    for code in 0..=2u8 {
        assert_eq!(Player::from_int(code).to_int(), code);
    }
    assert_eq!(Player::from_int(3).to_int(), 0);
}

#[test]
fn players_are_distinct() {
    assert_ne!(Player::One, Player::Two);
    assert_ne!(Player::One, Player::Nobody);
    assert_ne!(Player::Two, Player::Nobody);
}

#[test]
fn error_messages_are_fixed() {
    assert_eq!(MoveError::ColumnFull.message(), "Column is full");
    assert_eq!(MoveError::InvalidColumn.message(), "Column must be between 1 and 7");
    assert_eq!(MoveError::GameFinished.message(), "Game is already finished ");
}

#[test]
fn errors_are_distinct() {
    assert_ne!(MoveError::ColumnFull, MoveError::InvalidColumn);
    assert_ne!(MoveError::ColumnFull, MoveError::GameFinished);
    assert_ne!(MoveError::InvalidColumn, MoveError::GameFinished);
}
