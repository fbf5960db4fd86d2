use svoyak::registration::{
    delete_game_player, reg_game_player, reg_game_spectator, registered_people, reserve_players, RegEntry,
    SpectatorRefusal,
};

fn full_table() -> Vec<RegEntry> {
    (1..=16).map(RegEntry::Player).collect()
}

#[test]
fn player_takes_a_free_seat_and_leaves_other_roles() {
    let table = vec![RegEntry::Spectator(7), RegEntry::ReservePlayer(7), RegEntry::Player(1)];
    let (change, result) = reg_game_player(&table, 7);
    assert_eq!(result, Ok(()));
    assert_eq!(change.delete, vec![RegEntry::Spectator(7), RegEntry::ReservePlayer(7)]);
    assert_eq!(change.insert, Some(RegEntry::Player(7)));
}

#[test]
fn full_game_puts_the_player_in_reserve_once() {
    let (change, result) = reg_game_player(&full_table(), 20);
    assert_eq!(result, Err(()));
    assert!(change.delete.is_empty());
    assert_eq!(change.insert, Some(RegEntry::ReservePlayer(20)));
    let mut table = full_table();
    table.push(RegEntry::ReservePlayer(20));
    let (change, result) = reg_game_player(&table, 20);
    assert_eq!(result, Err(()));
    assert_eq!(change.insert, None);
}

#[test]
fn spectator_needs_a_free_seat() {
    let table = vec![RegEntry::Spectator(1), RegEntry::Spectator(2)];
    assert_eq!(reg_game_spectator(&table, 2, 3), Err(SpectatorRefusal::NoSeats));
    assert_eq!(reg_game_spectator(&table, 3, 2), Err(SpectatorRefusal::AlreadyRegistered));
    assert_eq!(reg_game_spectator(&table, 3, 3), Ok(RegEntry::Spectator(3)));
    assert_eq!(reg_game_spectator(&vec![], 0, 3), Err(SpectatorRefusal::NoSeats));
}

#[test]
fn withdrawal_deletes_the_player_rows() {
    let change = delete_game_player(5);
    assert_eq!(change.delete, vec![RegEntry::Player(5)]);
    assert_eq!(change.insert, None);
}

#[test]
fn notices_go_to_the_right_people() {
    let table = vec![
        RegEntry::Spectator(30),
        RegEntry::Player(1),
        RegEntry::ReservePlayer(20),
        RegEntry::Player(2),
        RegEntry::ReservePlayer(21),
    ];
    assert_eq!(reserve_players(&table), vec![20, 21]);
    assert_eq!(registered_people(&table), vec![1, 2, 20, 21, 30]);
}
