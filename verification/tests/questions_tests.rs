use svoyak::questions::{
    add_topic, check_update_stage_pac, create_question, create_question_2, create_questions_pac, edit_pac,
    edit_pac_que, query_topics, query_topics_unique, rec_in_topic_question_player, rec_question_db_2, rec_question_from_player_context, rec_schema_questions, re_rec_question_db, sequence_questions, view_pac, AutofillQuestionDB,
    NewQuestion, PackError, PackPage, PackQuestion, PackView,
};

fn new_q(topic: &str, question: &str, price: i32) -> NewQuestion {
    NewQuestion {
        user_id: 1,
        questions_pac_id: 2,
        topic_five_questions: topic.into(),
        question: question.into(),
        answer: "ответ".into(),
        price_question: price,
        player_id: None,
        player_question_id: None,
    }
}

fn row(topic: &str, question: &str, price: i32) -> PackQuestion {
    PackQuestion { topic_five_questions: topic.into(), question: question.into(), price_question: price }
}

#[test]
fn admission_rejects_repeats() {
    let pack = vec![row("Реки", "Самая длинная?", 10)];
    assert!(!create_question(&pack, &new_q("Горы", "Самая длинная?", 20)));
    assert!(!create_question(&pack, &new_q("Реки", "Другой вопрос", 10)));
    assert!(create_question(&pack, &new_q("Реки", "Другой вопрос", 20)));
}

#[test]
fn stage_follows_the_size() {
    assert_eq!(check_update_stage_pac(0), Some(0));
    assert_eq!(check_update_stage_pac(269), Some(0));
    assert_eq!(check_update_stage_pac(270), Some(1));
    assert_eq!(check_update_stage_pac(271), None);
}

#[test]
fn page_after_adding_a_question() {
    let mut pack: Vec<PackQuestion> = (0..4).map(|k| row("Реки", &format!("q{}", k), 10 * (k + 1))).collect();
    let r = rec_question_db_2(&pack, &new_q("Реки", "q4", 50));
    assert!(r.added);
    assert_eq!(r.page, PackPage::PrepareQuestionsTopic);
    assert_eq!(r.stage, Some(0));
    let r = rec_question_db_2(&pack, &new_q("Реки", "q0", 50));
    assert!(!r.added);
    assert_eq!(r.page, PackPage::PrepareQuestions);
    for k in 4..269 {
        pack.push(row(&format!("t{}", k / 5), &format!("x{}", k), 10 * (k % 5 + 1)));
    }
    let r = rec_question_db_2(&pack, &new_q("Новая", "последний", 10));
    assert!(r.added);
    assert_eq!(r.stage, Some(1));
    assert_eq!(r.page, PackPage::QuestionsPacDone);
}

#[test]
fn at_most_fifty_four_topics() {
    let pack: Vec<PackQuestion> = (0..53).map(|k| row(&format!("t{}", k), &format!("q{}", k), 10)).collect();
    assert!(add_topic(&pack));
    let mut full = pack;
    full.push(row("t53", "q53", 10));
    full.push(row("t53", "q54", 20));
    assert!(!add_topic(&full));
}

#[test]
fn pack_names_are_unique() {
    let names = vec!["Весна".to_string()];
    assert_eq!(create_questions_pac(&names, "Весна"), Err(PackError::NameTaken));
    assert_eq!(create_questions_pac(&names, "Лето"), Ok(()));
}

#[test]
fn random_order_keeps_topics_whole() {
    let ids: Vec<i64> = (1..=270).collect();
    let drawn = sequence_questions(None, &ids);
    assert!(!drawn.layout_used);
    let order = drawn.order;
    assert_eq!(order.len(), 270);
    for chunk in order.chunks(5) {
        assert_eq!(chunk[0] % 5, 1);
        for k in 1..5 {
            assert_eq!(chunk[k], chunk[0] + k as i64);
        }
    }
    let mut sorted = order.clone();
    sorted.sort();
    assert_eq!(sorted, ids);
    let laid = sequence_questions(Some(vec![5, 4, 3]), &ids);
    assert_eq!(laid.order, vec![5, 4, 3]);
    assert!(laid.layout_used);
}

#[test]
fn laid_out_schema_concatenates_topics() {
    assert_eq!(rec_schema_questions(&vec![vec![3, 1], vec![], vec![7]]), vec![3, 1, 7]);
}

#[test]
fn pack_views() {
    assert_eq!(view_pac(true), PackView::QuestionsPacDoneTransfer);
    assert_eq!(view_pac(false), PackView::QuestionsPacDone);
    assert_eq!(edit_pac(0), PackView::PrepareQuestionsTopic);
    assert_eq!(edit_pac(3), PackView::EditPac);
    assert_eq!(re_rec_question_db(1), PackView::QuestionsPacDone);
    assert_eq!(re_rec_question_db(0), PackView::EditPac);
    let found = AutofillQuestionDB { question: "q".into(), answer: "a".into(), price_question: 40 };
    let page = edit_pac_que(Some(found), "h".into(), 2, "p".into(), "t".into(), 9).unwrap();
    assert_eq!(page.price_question, 40);
    assert_eq!(page.header_question_id, 9);
    assert!(edit_pac_que(None, "h".into(), 2, "p".into(), "t".into(), 9).is_none());
}

#[test]
fn player_question_admitted_like_any_other() {
    let pack = vec![row("Реки", "Самая длинная?", 10)];
    assert!(!create_question_2(&pack, &new_q("Горы", "Самая длинная?", 20)));
    assert!(!create_question_2(&pack, &new_q("Реки", "Другой", 10)));
    assert!(create_question_2(&pack, &new_q("Реки", "Другой", 20)));
}

#[test]
fn player_question_fills_the_topic() {
    let pack: Vec<PackQuestion> = (0..4).map(|k| row("Реки", &format!("q{}", k), 10 * (k + 1))).collect();
    let r = rec_in_topic_question_player(&pack, &new_q("Реки", "q4", 50));
    assert!(r.added);
    assert_eq!(r.stage, Some(0));
    assert_eq!(r.page, PackPage::PrepareQuestionsTopic);
    let one = vec![row("Реки", "q0", 10)];
    let r = rec_in_topic_question_player(&one, &new_q("Реки", "q9", 20));
    assert!(r.added);
    assert_eq!(r.page, PackPage::PrepareQuestions);
}

#[test]
fn player_question_opens_a_new_pack() {
    let names = vec!["Весна".to_string(), "Осень".to_string()];
    assert_eq!(rec_question_from_player_context(&names, "Осень", &new_q("Реки", "q", 10)), Err(PackError::NameTaken));
    assert_eq!(rec_question_from_player_context(&names, "Зима", &new_q("Реки", "q", 10)), Ok(true));
    assert_eq!(rec_question_from_player_context(&vec![], "Зима", &new_q("Реки", "q", 10)), Ok(true));
}

#[test]
fn topics_listed_once_and_open_topics() {
    let mut pack: Vec<PackQuestion> = (0..5).map(|k| row("Реки", &format!("r{}", k), 10 * (k + 1))).collect();
    pack.insert(2, row("Горы", "g0", 10));
    pack.push(row("Озёра", "o0", 10));
    pack.push(row("Горы", "g1", 20));
    assert_eq!(query_topics_unique(&pack), vec!["Реки".to_string(), "Горы".to_string(), "Озёра".to_string()]);
    assert_eq!(query_topics(&pack), vec!["Горы".to_string(), "Озёра".to_string()]);
    assert!(query_topics(&vec![]).is_empty());
}
