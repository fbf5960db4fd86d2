use svoyak::conversation::{
    add_to_multi_question_db, choice_number_question_from_player, confirmation_of_registration,
    invalid_state, player_data, question, receive_player_phone_number, receive_player_real_first_name,
    receive_player_real_location, receive_question_text, registration_complete, rename, start, PlayerProfile,
    UserMultiQuestion,
};
use svoyak::dialogue::State;

const ASK_NAME: &str = "Напишите своё ИМЯ.Ваше ИМЯ будет использоваться при обращении ведущего к Вам.";

#[test]
fn first_name_of_letters_moves_on() {
    let r = receive_player_real_first_name(Some("Иван"));
    assert_eq!(
        r.messages,
        vec!["Напишите своё ОТЧЕСТВО.Ваше ОТЧЕСТВО будет использоваться при обращении ведущего к Вам.".to_string()]
    );
    match r.next {
        Some(State::ReceivePlayerRealPatronymic { player_real_first_name }) => {
            assert_eq!(player_real_first_name, "Иван")
        }
        _ => panic!("the patronymic is asked next"),
    }
}

#[test]
fn first_name_with_digits_is_refused() {
    let r = receive_player_real_first_name(Some("Иван2"));
    assert_eq!(r.messages, vec!["Ваше имя должно содержать только буквы.".to_string(), ASK_NAME.to_string()]);
    assert!(r.next.is_none());
    let r = receive_player_real_first_name(None);
    assert_eq!(r.messages, vec!["Отправляй только буквы.".to_string(), ASK_NAME.to_string()]);
    assert!(r.next.is_none());
}

#[test]
fn city_with_a_space_is_refused() {
    let r = receive_player_real_location("И".into(), "И".into(), "И".into(), Some("Нижний Новгород"));
    assert_eq!(r.messages[0], "Ваш город должен содержать только буквы");
    assert!(r.next.is_none());
}

fn phone(text: Option<&str>) -> svoyak::conversation::PhoneReply {
    receive_player_phone_number("Иван".into(), "Иванович".into(), "Иванов".into(), "Тверь".into(), text)
}

#[test]
fn phone_number_rules() {
    assert_eq!(phone(None).messages, vec!["Отправляй только цифры.".to_string()]);
    assert_eq!(phone(Some("+79001234567")).messages, vec!["Номер телефона не может начинаться с символа '+'.".to_string()]);
    assert_eq!(phone(Some("8900123456")).messages, vec!["Номер телефона должен состоять из 11 цифр.".to_string()]);
    assert_eq!(phone(Some("8900123456a")).messages, vec!["Номер телефона должен состоять из 11 цифр.".to_string()]);
    assert!(phone(Some("8900123456")).accepted.is_none());
}

#[test]
fn phone_number_closes_the_acquaintance() {
    let r = phone(Some("89001234567"));
    assert_eq!(
        r.messages,
        vec!["Имя: Иван\nОтчество: Иванович\nФамилия: Иванов\nЛокация: Тверь\nТелефон: 89001234567".to_string()]
    );
    let d = r.accepted.unwrap();
    assert_eq!(d.player_real_phone_number, 89001234567);
    assert_eq!(d.player_real_location, "Тверь");
    // a leading zero is not kept, as the number is stored as an integer
    let r = phone(Some("01234567890"));
    assert!(r.messages[0].ends_with("Телефон: 1234567890"));
}

#[test]
fn single_question_flow() {
    let r = receive_question_text(State::ReceiveSingleQuestionFromPlayer, Some("Столица?"));
    assert_eq!(r.messages, vec!["Напишите ответ на Ваш вопрос.".to_string()]);
    let next = r.next.unwrap();
    let r = receive_question_text(next, Some("Москва"));
    let q = r.single.unwrap();
    assert_eq!(q.player_single_question, "Столица?");
    assert_eq!(q.player_single_answer_question, "Москва");
    assert!(matches!(r.next, Some(State::RegistrationComplete)));
    assert!(r.messages[0].starts_with("Ваш вопрос принят."));
}

#[test]
fn five_questions_flow() {
    let prompts = [
        "Напишите первый вопрос.",
        "Напишите ответ на первый вопрос.",
        "Напишите второй вопрос.",
        "Напишите ответ на второй вопрос.",
        "Напишите третий вопрос.",
        "Напишите ответ на третий вопрос.",
        "Напишите четвёртый вопрос.",
        "Напишите ответ на четвёртый вопрос.",
        "Напишите пятый вопрос.",
        "Напишите ответ на пятый вопрос.",
    ];
    let mut state = State::ReceiveTopicMultiQuestionFromPlayer;
    for (k, prompt) in prompts.iter().enumerate() {
        let text = format!("t{}", k);
        let r = receive_question_text(state, Some(&text));
        assert_eq!(r.messages, vec![prompt.to_string()]);
        state = r.next.unwrap();
    }
    let r = receive_question_text(state, Some("t10"));
    assert!(matches!(r.next, Some(State::RegistrationComplete)));
    let m = r.multi.unwrap();
    let expected: Vec<String> = (0..11).map(|k| format!("t{}", k)).collect();
    assert_eq!(m.texts, expected);
    let rows = add_to_multi_question_db(&m);
    assert_eq!(rows.len(), 5);
    assert_eq!(rows[2].player_topic_five_questions.as_deref(), Some("t0"));
    assert_eq!(rows[2].player_question, "t5");
    assert_eq!(rows[2].player_answer_question, "t6");
}

#[test]
fn text_only_wordings() {
    let r = receive_question_text(State::ReceiveTopicMultiQuestionFromPlayer, None);
    assert_eq!(r.messages, vec!["Отправляйте только текст.".to_string()]);
    let s = State::ReceiveFirstQuestionFromPlayer { player_topic_multi_question: "т".into() };
    assert_eq!(receive_question_text(s, None).messages, vec!["Отправляте только текст.".to_string()]);
}

fn profile(id: i64, name: Option<&str>) -> PlayerProfile {
    PlayerProfile {
        player_id: Some(id),
        chat_id: Some(id),
        player_real_first_name: name.map(|s| s.to_string()),
        player_real_patronymic: None,
        player_real_last_name: Some("Петров".into()),
        player_real_location: None,
        player_real_phone_number: Some(89001234567),
    }
}

#[test]
fn start_greets_by_what_is_known() {
    let r = start(&vec![], 5);
    assert_eq!(r.messages.len(), 4);
    assert_eq!(r.messages[0], "🤝");
    assert!(matches!(r.next, Some(State::ReceivePlayerRealFirstName)));
    let r = start(&vec![profile(5, Some(""))], 5);
    assert_eq!(r.messages[0], "Как хорошо, что Вы вернулись!\nДавайте продолжим знакомство.");
    let r = start(&vec![profile(5, Some("Пётр"))], 5);
    assert_eq!(r.messages, vec!["Выберите команду в 'Меню'.".to_string()]);
    assert!(matches!(r.next, Some(State::RegistrationComplete)));
}

#[test]
fn confirmation_and_choice_buttons() {
    let (t, store, s) = confirmation_of_registration("Подтверждаю").unwrap();
    assert!(store && matches!(s, State::RegistrationComplete));
    assert!(t.starts_with("Я очень рад"));
    let (_, store, _) = confirmation_of_registration("Повторить").unwrap();
    assert!(!store);
    assert!(confirmation_of_registration("другое").is_none());
    let (t, s) = choice_number_question_from_player("Один вопрос").unwrap();
    assert_eq!(t, "Напишите свой вопрос.");
    assert!(matches!(s, State::ReceiveSingleQuestionFromPlayer));
    let (t, _) = choice_number_question_from_player("Пять вопросов одной темы").unwrap();
    assert_eq!(t, "Напишите тему вопросов.");
    assert!(choice_number_question_from_player("x").is_none());
}

#[test]
fn menu_replies() {
    let (t, buttons, s) = question();
    assert_eq!(t, "Отправить вопрос для игры.");
    assert_eq!(buttons, vec!["Один вопрос".to_string(), "Пять вопросов одной темы".to_string()]);
    assert!(matches!(s, State::ChoiceNumberQuestionFromPlayer));
    let r = rename();
    assert_eq!(r.messages[1], ASK_NAME);
    assert_eq!(registration_complete(), "Выберите команду в 'Меню'");
    assert!(invalid_state().starts_with("Не удается обработать сообщение."));
}

#[test]
fn player_data_lists_known_fields() {
    let t = player_data(&vec![profile(3, Some("Анна"))], 3);
    assert_eq!(t, "Ваши данные:\nИмя: Анна\nФамилия: Петров\nНомер телефона: 89001234567\n");
    assert_eq!(player_data(&vec![], 3), "Ваши данные не найдены.");
}

#[test]
fn multi_question_rows_keep_pairs() {
    let m = UserMultiQuestion { texts: (0..11).map(|k| k.to_string()).collect() };
    let rows = add_to_multi_question_db(&m);
    for (k, r) in rows.iter().enumerate() {
        assert_eq!(r.player_question, (2 * k + 1).to_string());
        assert_eq!(r.player_answer_question, (2 * k + 2).to_string());
    }
}
