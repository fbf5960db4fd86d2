use svoyak::schedule::Foursome;
use svoyak::scoring::{
    cancellation_last_accrual_points, del_last_rec_schema_game, delete_duplicate_records, players_dont_know_answer,
    rec_correct_answer_player, rec_incorrect_answer_player, result_answer_unique, AfterAnswer,
    Cancellation, QuestionRef, ScoreEntry,
};

fn q(question_id: i64) -> QuestionRef {
    QuestionRef { questions_pac_id: 7, tour: 1, round: 1, question_id }
}

fn e(player_id: i64, question_id: i64, score: i32) -> ScoreEntry {
    ScoreEntry { questions_pac_id: 7, tour: 1, round: 1, player_id, question_id, score }
}

fn four() -> Foursome {
    Foursome { p1: 1, p2: 2, p3: 3, p4: 4 }
}

#[test]
fn answer_unique_ignores_other_questions_and_prices() {
    let log = vec![e(1, 10, 20), e(2, 11, -30)];
    assert!(!result_answer_unique(&log, &q(10), 1, 20));
    assert!(!result_answer_unique(&log, &q(10), 1, -20));
    assert!(result_answer_unique(&log, &q(10), 1, 30));
    assert!(result_answer_unique(&log, &q(11), 1, 30));
    assert!(!result_answer_unique(&log, &q(11), 2, 30));
}

#[test]
fn correct_answer_scores_the_player_and_zeros_the_others() {
    let plan = rec_correct_answer_player(&vec![], four(), &q(10), 3, 40);
    assert!(plan.question_played);
    assert_eq!(plan.entries, vec![e(1, 10, 0), e(2, 10, 0), e(3, 10, 40), e(4, 10, 0)]);
}

#[test]
fn correct_answer_is_scored_once() {
    let first = rec_correct_answer_player(&vec![], four(), &q(10), 3, 40);
    let again = rec_correct_answer_player(&first.entries, four(), &q(10), 3, 40);
    assert!(again.entries.is_empty());
    assert!(!again.question_played);
}

#[test]
fn correct_answer_of_an_outsider_records_nothing() {
    let plan = rec_correct_answer_player(&vec![], four(), &q(10), 9, 40);
    assert!(plan.entries.is_empty());
    assert!(plan.question_played);
}

#[test]
fn wrong_answer_takes_the_price() {
    let plan = rec_incorrect_answer_player(&vec![], &q(10), 2, 30);
    assert_eq!(plan.entry, Some(e(2, 10, -30)));
    assert_eq!(plan.next, AfterAnswer::SameQuestion);
    let again = rec_incorrect_answer_player(&vec![e(2, 10, -30)], &q(10), 2, 30);
    assert_eq!(again.entry, None);
    assert_eq!(again.next, AfterAnswer::SameQuestion);
}

#[test]
fn fourth_wrong_answer_closes_the_question() {
    let log = vec![e(1, 10, -30), e(2, 10, -30), e(3, 10, -30)];
    let plan = rec_incorrect_answer_player(&log, &q(10), 4, 30);
    assert_eq!(plan.entry, Some(e(4, 10, -30)));
    assert_eq!(plan.next, AfterAnswer::QuestionOver);
}

#[test]
fn nobody_knows_gives_four_zeros_once() {
    let plan = players_dont_know_answer(&vec![], four(), &q(10));
    assert!(plan.question_played);
    assert_eq!(plan.entries, vec![e(1, 10, 0), e(2, 10, 0), e(3, 10, 0), e(4, 10, 0)]);
    let again = players_dont_know_answer(&plan.entries, four(), &q(10));
    assert!(again.entries.is_empty());
    assert!(!again.question_played);
}

#[test]
fn nobody_knows_stops_at_a_recorded_zero() {
    let plan = players_dont_know_answer(&vec![e(3, 10, 0)], four(), &q(10));
    assert_eq!(plan.entries, vec![e(1, 10, 0), e(2, 10, 0)]);
    assert!(!plan.question_played);
}

#[test]
fn duplicate_zeros_are_deleted() {
    let log = vec![e(1, 10, -20), e(1, 10, 0), e(2, 10, 0), e(3, 11, 0), e(3, 11, 0), e(4, 11, 30)];
    assert_eq!(delete_duplicate_records(&log), vec![true, false, true, false, false, true]);
}

#[test]
fn duplicate_deletion_is_idempotent() {
    let log = vec![e(1, 10, -20), e(1, 10, 0), e(2, 10, 0), e(3, 11, 0), e(3, 11, 0)];
    let keep = delete_duplicate_records(&log);
    let kept: Vec<ScoreEntry> = log.iter().zip(keep.iter()).filter(|(_, k)| **k).map(|(x, _)| *x).collect();
    let again = delete_duplicate_records(&kept);
    assert!(again.iter().all(|k| *k));
}

#[test]
fn cancellation_after_a_wrong_answer_removes_it() {
    let log = vec![e(1, 10, 0), e(2, 10, 0), e(3, 10, 20), e(4, 10, 0), e(1, 11, -30)];
    assert_eq!(cancellation_last_accrual_points(&log), Cancellation::DeleteLastEntry);
}

#[test]
fn cancellation_of_four_wrong_answers_replays_the_question() {
    let log = vec![e(1, 11, -30), e(2, 11, -30), e(3, 11, -30), e(4, 11, -30)];
    assert_eq!(cancellation_last_accrual_points(&log), Cancellation::UndoLastQuestion);
    assert_eq!(cancellation_last_accrual_points(&vec![]), Cancellation::UndoLastQuestion);
    let correct = vec![e(1, 10, 0), e(2, 10, 0), e(3, 10, 20), e(4, 10, 0)];
    assert_eq!(cancellation_last_accrual_points(&correct), Cancellation::UndoLastQuestion);
}

#[test]
fn cancelling_a_correct_answer_restores_the_log() {
    let before = vec![e(1, 9, 20), e(2, 9, 0), e(3, 9, 0), e(4, 9, 0)];
    let plan = rec_correct_answer_player(&before, four(), &q(10), 3, 40);
    let mut after = before.clone();
    after.extend(plan.entries);
    assert_eq!(cancellation_last_accrual_points(&after), Cancellation::UndoLastQuestion);
    let keep = del_last_rec_schema_game(&after, 10);
    let left: Vec<ScoreEntry> = after.iter().zip(keep).filter(|(_, k)| *k).map(|(x, _)| *x).collect();
    assert_eq!(left, before);
}
