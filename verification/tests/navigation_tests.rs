use svoyak::navigation::{
    changing_four_players, changing_round, game, missing_max_id_header, result_tour, AfterQuestion, NextQuestion,
    TourPage,
};

#[test]
fn after_a_question() {
    for id in [80, 160, 240, 270] {
        assert_eq!(changing_four_players(Some(id), Some((Some(4), Some(1)))), AfterQuestion::ResultTour);
    }
    assert_eq!(changing_four_players(Some(19), Some((Some(1), Some(1)))), AfterQuestion::Game);
    assert_eq!(changing_four_players(Some(20), Some((Some(1), Some(2)))), AfterQuestion::ChangingRound);
    assert_eq!(changing_four_players(Some(20), None), AfterQuestion::Game);
    assert_eq!(changing_four_players(None, None), AfterQuestion::MissingMaxId);
    assert_eq!(missing_max_id_header(), "max_id не определен. Сделайте скриншот и отправьте его администратору!");
}

#[test]
fn round_change_page() {
    assert!(!changing_round(-10));
    assert!(changing_round(-20));
    assert!(changing_round(10));
}

#[test]
fn tour_pages() {
    assert_eq!(result_tour(Some(270), None, 4, 1), TourPage::Final);
    assert_eq!(result_tour(Some(80), Some(-10), 1, 4), TourPage::Game);
    assert_eq!(
        result_tour(Some(80), Some(20), 1, 4),
        TourPage::ResultTour {
            header_tour: "1 тур окончен с результатами:".into(),
            header_next_players: "Приглашается следующая четвёрка игроков:".into()
        }
    );
    assert_eq!(
        result_tour(Some(240), Some(0), 3, 4),
        TourPage::ResultTour {
            header_tour: "Отборочные туры окончены с результатами:".into(),
            header_next_players: "ФИНАЛИСТЫ:".into()
        }
    );
}

fn next(author: Option<(String, String, String, String)>) -> NextQuestion {
    NextQuestion {
        topic_five_questions: None,
        question: Some("Вопрос".into()),
        answer: None,
        price_question: 30,
        question_id: 12,
        tour: 2,
        round: 3,
        author,
    }
}

#[test]
fn question_page_defaults() {
    let page = game(Some(90), "Город".into(), 1, 2, "Пакет".into(), next(None)).unwrap();
    assert_eq!(page.topic_five_questions, "Название пятёрки вопросов не указано");
    assert_eq!(page.question, "Вопрос");
    assert_eq!(page.answer, "Ответ не указан");
    assert_eq!(page.last_name_player_question, "");
    assert_eq!(page.price_question, 30);
    assert_eq!(page.tour, 2);
    let author = Some(("Петров".to_string(), "Пётр".to_string(), "Петрович".to_string(), "Тверь".to_string()));
    let page = game(None, "Город".into(), 1, 2, "Пакет".into(), next(author)).unwrap();
    assert_eq!(page.location_player_question, "Тверь");
    assert!(game(Some(270), "Город".into(), 1, 2, "Пакет".into(), next(None)).is_none());
}
