use svoyak::announce::{announce_game, announced, create_game_table, format_game_day, AnnounceGame, GameSlot};

fn form(date: &str) -> AnnounceGame {
    AnnounceGame {
        datepicker: date.into(),
        timepicker: "19:00".into(),
        announce_message: "Клуб".into(),
        price_player: 500,
        price_spectator: 200,
        seats_spectator: 20,
    }
}

#[test]
fn picked_date_is_shown_day_first() {
    assert_eq!(announce_game(&form("2025-03-05")), Ok("05.03.2025".to_string()));
    assert_eq!(announce_game(&form("0999-12-31")), Ok("31.12.0999".to_string()));
    let err = announce_game(&form("05.03.2025")).unwrap_err();
    assert!(err.starts_with("Обработка ошибки парсинга даты: "));
    assert!(err.len() > "Обработка ошибки парсинга даты: ".len());
}

#[test]
fn years_outside_four_digits_carry_a_sign() {
    assert_eq!(format_game_day(12345, 1, 2), "02.01.+12345");
    assert_eq!(format_game_day(-7, 1, 2), "02.01.-0007");
    assert_eq!(format_game_day(7, 11, 30), "30.11.0007");
}

#[test]
fn one_game_per_place_and_time() {
    let slot = |d: &str, t: &str, l: &str| GameSlot { game_day: d.into(), game_time: t.into(), game_location: l.into() };
    let games = vec![slot("05.03.2025", "19:00", "Клуб")];
    assert!(!create_game_table(&games, &slot("05.03.2025", "19:00", "Клуб")));
    assert!(create_game_table(&games, &slot("05.03.2025", "20:00", "Клуб")));
    assert_eq!(
        announced("05.03.2025", "19:00", "Клуб"),
        "На 05.03.2025 объявлена игра. Начало игры в 19:00. Место проведения игры: Клуб."
    );
}
