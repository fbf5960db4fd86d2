use svoyak::web::{
    get_organiser_context_menu, get_topic_five_questions_last_insert, get_user_id_from_cookies,
    transfer_question_pac, DataTransfer, SessionError, UsersTable,
};

#[test]
fn user_from_session_cookie() {
    assert_eq!(get_user_id_from_cookies(Some("ABCD"), Some(5)), Ok(5));
    assert_eq!(get_user_id_from_cookies(Some("ABCD"), None), Err(SessionError::NoTokenFound));
    assert_eq!(get_user_id_from_cookies(None, Some(5)), Err(SessionError::NoTokenFound));
}

fn user(id: i64, name: &str, role: &str) -> UsersTable {
    UsersTable {
        id_table: id,
        username_table: name.into(),
        password_table: "hash".into(),
        city_table: "Омск".into(),
        role_table: role.into(),
    }
}

#[test]
fn organiser_menu_lists_other_organisers() {
    let users = vec![user(1, "me", "organiser"), user(2, "ivan", "organiser"), user(3, "adm", "admin"), user(4, "olga", "organiser")];
    let menu = get_organiser_context_menu(Ok(1), &users).organisers_names;
    let listed: Vec<(i64, String)> = menu.into_iter().map(|o| (o.id, o.user_name)).collect();
    assert_eq!(listed, vec![(2, "ivan".to_string()), (4, "olga".to_string())]);
    assert!(get_organiser_context_menu(Err(SessionError::NoTokenFound), &users).organisers_names.is_empty());
}

#[test]
fn last_topic_or_default() {
    assert_eq!(get_topic_five_questions_last_insert(Some("Реки".into())), "Реки");
    assert_eq!(get_topic_five_questions_last_insert(None), "Название темы пятёрки вопросов не указано");
}

#[test]
fn pack_goes_to_an_organiser_once() {
    let transfers = vec![DataTransfer { sender_user_id: 1, receiver_user_id: 2, package_id: 9 }];
    assert_eq!(
        transfer_question_pac(&transfers, 2, 9, Some("ivan".into()), "Весна"),
        Err("ivan уже имеет пакет вопросов Весна. Одним из организаторов (или Вами) этот пакет направлялся ранее.".to_string())
    );
    assert_eq!(
        transfer_question_pac(&transfers, 1, 9, None, "Весна"),
        Err(" уже имеет пакет вопросов Весна. Одним из организаторов (или Вами) этот пакет направлялся ранее.".to_string())
    );
    assert_eq!(transfer_question_pac(&transfers, 3, 9, Some("olga".into()), "Весна"), Ok("Пакет Весна передан olga".to_string()));
}
