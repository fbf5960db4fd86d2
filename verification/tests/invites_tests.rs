use svoyak::dialogue::State;
use svoyak::invites::{
    announce_game_bot, button_data, button_kind, choice_registration_reply, del_game_bot, free_space_game_bot,
    choice_registration_for_the_game, messages_to_delete, read_button_data, reg_game, ButtonKind, GameInfo,
    PressOutcome,
};
use svoyak::registration::RegEntry;

#[test]
fn button_data_reads_back() {
    let data = button_data(ButtonKind::Player, 123456789, 42);
    assert_eq!(data, "player:123456789:42");
    let press = read_button_data(&data).unwrap();
    assert_eq!(press.button_type, "player");
    assert_eq!(press.player_id, 123456789);
    assert_eq!(press.game_id, 42);
    assert_eq!(button_kind(&press.button_type), Some(ButtonKind::Player));
    let data = button_data(ButtonKind::DeletePlayer, -5, 7);
    assert_eq!(data, "delete_player:-5:7");
    assert_eq!(button_kind("delete_player"), Some(ButtonKind::DeletePlayer));
    assert_eq!(button_kind("spectator"), Some(ButtonKind::Spectator));
    assert_eq!(button_kind("other"), None);
}

#[test]
fn malformed_button_data() {
    assert!(read_button_data("player:1").is_none());
    assert!(read_button_data("a:b:c:d").is_none());
    let press = read_button_data("player:x:9").unwrap();
    assert_eq!(press.player_id, 0);
    assert_eq!(press.game_id, 9);
}

#[test]
fn replies_to_a_press() {
    let (t, s) = choice_registration_reply(PressOutcome::PlayerRegistered, "01.02.2025", "19:00", "Клуб");
    assert_eq!(t, "Вы зарегистрированы на игру, которая состоится 01.02.2025 в 19:00.\nМесто проведения игры: Клуб.");
    assert!(matches!(s, State::RegistrationComplete));
    let (t, _) = choice_registration_reply(PressOutcome::SpectatorAlreadyRegistered, "01.02.2025", "19:00", "Клуб");
    assert_eq!(t, "Вы уже зарегистрированы зрителем на игру, которая состоится 01.02.2025 в 19:00");
    let (t, _) = choice_registration_reply(PressOutcome::SpectatorNoSeats, "d", "t", "l");
    assert_eq!(t, "Мне очень жаль, но зрительный зал игры, которая состоится d в t полон. Надеюсь увидеть Вас на других играх.");
    let (t, _) = choice_registration_reply(PressOutcome::Withdrawn, "d", "t", "l");
    assert_eq!(t, "Очень жаль, что Вы отказались от игры, которая состоится d в t.\nМесто проведения игры: l.");
    let (t, _) = choice_registration_reply(PressOutcome::PlayerInReserve, "d", "t", "l");
    assert!(t.starts_with("Мне очень жаль, но игровые места на игру, которая состоится d в t закончились."));
    let (t, _) = choice_registration_reply(PressOutcome::SpectatorRegistered, "d", "t", "l");
    assert_eq!(t, "Мы ждем Вас в зрительном зале на игре, которая состоится d в t.\nМесто проведения игры: l.");
}

#[test]
fn other_invitations_are_deleted() {
    assert_eq!(messages_to_delete(&vec![10, 11, 12, 11], 11), vec![10, 12]);
}

fn game(id: i64, registered: bool) -> GameInfo {
    GameInfo {
        game_id: id,
        game_day: "05.03.2025".into(),
        game_time: "18:30".into(),
        game_location: "Бар".into(),
        player_registered: registered,
    }
}

#[test]
fn game_list_offers_the_right_buttons() {
    let list = reg_game(&vec![game(3, false), game(4, true)], 77);
    assert!(list.note.is_none());
    assert!(matches!(list.next, Some(State::RegistrationForTheGame)));
    assert_eq!(list.offers[0].text, "Открыта регистрация на игру, которая пройдёт: 05.03.2025\nВремя начала игры: 18:30\nМесто проведения игры: Бар");
    assert_eq!(list.offers[0].buttons[0].label, "Игроком");
    assert_eq!(list.offers[0].buttons[0].data, "player:77:3");
    assert_eq!(list.offers[0].buttons[1].data, "spectator:77:3");
    assert!(list.offers[0].remember);
    assert_eq!(list.offers[1].text, "Вы зарегестрированы на игру, которая состоится: 05.03.2025\nв: 18:30.\nМесто проведения игры: Бар");
    assert_eq!(list.offers[1].buttons[0].label, "Отказаться от игры");
    assert_eq!(list.offers[1].buttons[0].data, "delete_player:77:4");
    assert!(!list.offers[1].remember);
    let none = reg_game(&vec![], 77);
    assert!(none.note.unwrap().starts_with("В данный момент отсутвуют анонсированные игры."));
    assert!(none.next.is_none());
}

#[test]
fn notices() {
    assert_eq!(
        free_space_game_bot("d", "t", "l", 500),
        "Рад сообщить Вам, что освободилось место на игру, которая пройдет d.\nНачало игры в t.\nМесто проведения игры: l.\nСтоимость участия в игре: 500 руб.\nОплата наличными или банковским переводом.\nДля регистрации нажмите /reggame"
    );
    assert_eq!(
        del_game_bot("d", "t"),
        "Мне очень жаль, но организаторы вынуждены отменить игру, проведение которой планировалось d.\nв t.\nПредлагаю посмотреть список других объявленных игр /reggame"
    );
    assert!(announce_game_bot("d", "t", "l", 500, 200).contains("Стоимость присутсвия в зрительном зале: 200 руб."));
}

#[test]
fn press_registers_and_replies() {
    let full: Vec<RegEntry> = (1..=16).map(RegEntry::Player).collect();
    let press = read_button_data("player:77:5").unwrap();
    let r = choice_registration_for_the_game(&press, &vec![RegEntry::Spectator(77)], 3, "01.02.2025", "19:00", "Клуб").unwrap();
    assert_eq!(r.outcome, PressOutcome::PlayerRegistered);
    assert_eq!(r.change.delete, vec![RegEntry::Spectator(77)]);
    assert_eq!(r.change.insert, Some(RegEntry::Player(77)));
    assert_eq!(
        r.reply,
        "Вы зарегистрированы на игру, которая состоится 01.02.2025 в 19:00.\nМесто проведения игры: Клуб."
    );
    assert!(matches!(r.next, State::RegistrationComplete));
    let r = choice_registration_for_the_game(&press, &full, 3, "d", "t", "l").unwrap();
    assert_eq!(r.outcome, PressOutcome::PlayerInReserve);
    assert_eq!(r.change.insert, Some(RegEntry::ReservePlayer(77)));
    let spectator = read_button_data("spectator:77:5").unwrap();
    let r = choice_registration_for_the_game(&spectator, &full, 0, "d", "t", "l").unwrap();
    assert_eq!(r.outcome, PressOutcome::SpectatorNoSeats);
    assert!(r.change.insert.is_none() && r.change.delete.is_empty());
    let leave = read_button_data("delete_player:3:5").unwrap();
    let r = choice_registration_for_the_game(&leave, &full, 0, "d", "t", "l").unwrap();
    assert_eq!(r.outcome, PressOutcome::Withdrawn);
    assert_eq!(r.change.delete, vec![RegEntry::Player(3)]);
    let other = read_button_data("other:3:5").unwrap();
    assert!(choice_registration_for_the_game(&other, &full, 0, "d", "t", "l").is_none());
}
