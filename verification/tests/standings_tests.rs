use svoyak::schedule::Foursome;
use svoyak::scoring::{
    players_dont_know_answer, rec_correct_answer_player, rec_incorrect_answer_player, QuestionRef, ScoreEntry,
};
use svoyak::standings::{
    finalists, formation_finalists_players, game_statistics, getting_game_results, player_totals,
    players_round_scores, query_players_qualifying_round_result, query_players_registration_result,
    results_order, sending_game_results, statistic, top_four, update_statistic_players, winner, PlayerNames,
    PlayerStatistic, PlayerTotals, PlayersListData, StoredStatistic, apply_game_statistics,
};

fn e(player_id: i64, tour: i8, round: i8, score: i32) -> ScoreEntry {
    ScoreEntry { questions_pac_id: 1, tour, round, player_id, question_id: 1, score }
}

fn log() -> Vec<ScoreEntry> {
    vec![e(1, 1, 1, 10), e(2, 1, 1, -20), e(1, 2, 1, 30), e(3, 3, 2, 0), e(2, 4, 1, 50), e(1, 4, 1, -10)]
}

#[test]
fn results_of_a_game() {
    let results = getting_game_results(&vec![1, 2, 9], &log());
    assert_eq!(results[0].positive_count, 2);
    assert_eq!(results[0].negative_count, 1);
    assert_eq!(results[0].sum_score, 30);
    assert_eq!(results[1].sum_score, 30);
    assert_eq!(results[2].positive_count, 0);
    assert_eq!(results[2].sum_score, 0);
    assert_eq!(
        sending_game_results(&results[0]),
        "Ваш результат прошедшей игры:\nПравильные ответы: 2\nНеправильные ответы: 1\nСумма баллов: 30"
    );
}

#[test]
fn totals_per_tour() {
    let totals = player_totals(&log());
    assert_eq!(totals.len(), 3);
    assert_eq!(
        totals[0],
        PlayerTotals { player_id: 1, score_tour_1: 10, score_tour_2: 30, score_tour_3: 0, final_tour: -10, total_score: 30 }
    );
    assert_eq!(totals[1].final_tour, 50);
    assert_eq!(totals[2].total_score, 0);
}

fn t(id: i64, t1: i64, t2: i64, t3: i64, total: i64) -> PlayerTotals {
    PlayerTotals { player_id: id, score_tour_1: t1, score_tour_2: t2, score_tour_3: t3, final_tour: 0, total_score: total }
}

#[test]
fn the_four_best_reach_the_final() {
    let totals = vec![
        t(1, 0, 0, 0, 100),
        t(2, 0, 0, 50, 300),
        t(3, 0, 0, 0, 200),
        t(4, 0, 0, 60, 300),
        t(5, 0, 0, 0, 50),
        t(6, 0, 0, 0, 250),
    ];
    let mut ids = finalists(&totals);
    assert_eq!(ids, vec![4, 2, 6, 3]);
    assert_eq!(top_four(&totals), vec![3, 1, 5, 2]);
    ids.sort();
    let seated = formation_finalists_players(240, ids.clone()).unwrap();
    let mut got = vec![seated.p1, seated.p2, seated.p3, seated.p4];
    got.sort();
    assert_eq!(got, ids);
    assert!(formation_finalists_players(200, ids).is_none());
    let few = formation_finalists_players(240, vec![8, 9]).unwrap();
    let mut got = vec![few.p1, few.p2, few.p3, few.p4];
    got.sort();
    assert_eq!(got, vec![0, 0, 8, 9]);
}

#[test]
fn winner_has_the_best_final() {
    let totals = player_totals(&log());
    assert_eq!(winner(&totals), 2);
    assert_eq!(winner(&vec![]), 0);
}

#[test]
fn statistics_after_a_game() {
    let stats = game_statistics(&log());
    assert_eq!(stats.len(), 2);
    assert_eq!(stats[0].player_id, 1);
    assert_eq!(stats[0].correct_answers, 2);
    assert_eq!(stats[0].incorrect_answers, 1);
    assert_eq!(stats[0].total_score, 30);
    let old = PlayerStatistic {
        player_play_games: 3,
        player_win_games: 1,
        player_correct_answer: 10,
        player_incorrect_answer: 4,
        player_total_score: 200,
    };
    let new = update_statistic_players(old, stats[0]);
    assert_eq!(new.player_play_games, 4);
    assert_eq!(new.player_win_games, 1);
    assert_eq!(new.player_correct_answer, 12);
    assert_eq!(new.player_incorrect_answer, 5);
    assert_eq!(new.player_total_score, 230);
    assert_eq!(
        statistic(&new),
        "Вы сыграли 4 игр,\nв которых правильно ответили на 12 вопросов,\nне правильно ответили на 5 вопросов.\nВы выиграли 1 игр.\nВо всех играх Вы набрали 230 баллов."
    );
}

fn names(n: &str) -> PlayerNames {
    PlayerNames {
        player_real_last_name: n.to_string(),
        player_real_first_name: n.to_string(),
        player_real_patronymic: n.to_string(),
    }
}

#[test]
fn round_scores_of_a_foursome() {
    let r = players_round_scores(5, vec![(1, names("a")), (2, names("b"))], &log(), 1, 1);
    assert_eq!(r.players.len(), 2);
    assert_eq!(r.players[0].total_score, 10);
    assert_eq!(r.players[1].total_score, -20);
    assert_eq!(r.players[1].player_real_last_name, "b");
    assert_eq!(r.players[0].game_id, 5);
}

#[test]
fn results_table_from_lowest_up() {
    let totals = vec![t(1, 0, 0, 0, 100), t(2, 0, 0, 0, -10), t(3, 5, 0, 0, 100), t(4, 0, 0, 0, 40)];
    assert_eq!(results_order(&totals), vec![1, 3, 0, 2]);
    let table = query_players_qualifying_round_result(&totals, &vec![names("a"), names("b"), names("c"), names("d")]);
    let ids: Vec<i64> = table.players.iter().map(|p| p.id).collect();
    assert_eq!(ids, vec![2, 4, 1, 3]);
    assert_eq!(table.players[0].player_real_first_name, "b");
}

#[test]
fn registration_list_has_each_person_once() {
    let row = |id: i64| PlayersListData {
        player_id: id,
        player_real_last_name: "x".into(),
        player_real_first_name: "y".into(),
        player_real_patronymic: "z".into(),
        player_real_phone_number: 1,
    };
    let list = query_players_registration_result(vec![row(1), row(2), row(1), row(3)]);
    let mut ids: Vec<i64> = list.players.iter().map(|p| p.player_id).collect();
    ids.sort();
    assert_eq!(ids, vec![1, 2, 3]);
}

fn total_of(log: &Vec<ScoreEntry>, player: i64) -> Option<PlayerTotals> {
    player_totals(log).into_iter().find(|t| t.player_id == player)
}

#[test]
fn answers_move_the_scores_by_the_price() {
    let four = Foursome { p1: 1, p2: 2, p3: 3, p4: 4 };
    let q = QuestionRef { questions_pac_id: 1, tour: 2, round: 1, question_id: 5 };
    let mut log: Vec<ScoreEntry> = vec![e(2, 1, 1, 10)];
    let wrong = rec_incorrect_answer_player(&log, &q, 3, 30);
    log.push(wrong.entry.unwrap());
    let right = rec_correct_answer_player(&log, four, &q, 2, 30);
    log.extend(right.entries);
    let dont = players_dont_know_answer(&log, four, &QuestionRef { question_id: 6, ..q });
    log.extend(dont.entries);
    let p2 = total_of(&log, 2).unwrap();
    assert_eq!((p2.score_tour_1, p2.score_tour_2, p2.total_score), (10, 30, 40));
    let p3 = total_of(&log, 3).unwrap();
    assert_eq!((p3.score_tour_2, p3.total_score), (-30, -30));
    let p1 = total_of(&log, 1).unwrap();
    assert_eq!(p1.total_score, 0);
}

#[test]
fn finished_game_updates_players_and_the_winner() {
    let stat = |games: i64| PlayerStatistic {
        player_play_games: games,
        player_win_games: 1,
        player_correct_answer: 5,
        player_incorrect_answer: 2,
        player_total_score: 100,
    };
    // Player 1 scores most in the qualifying tours, player 2 wins the final;
    // player 3 only has zeros.
    let log = vec![e(1, 1, 1, 50), e(1, 1, 1, -10), e(2, 4, 1, 30), e(1, 4, 1, 10), e(3, 1, 1, 0)];
    let stored = vec![
        StoredStatistic { player_id: 1, statistic: stat(3) },
        StoredStatistic { player_id: 2, statistic: stat(4) },
        StoredStatistic { player_id: 3, statistic: stat(5) },
    ];
    let updated = apply_game_statistics(&log, &stored);
    assert_eq!(
        updated[0].statistic,
        PlayerStatistic {
            player_play_games: 4,
            player_win_games: 1,
            player_correct_answer: 7,
            player_incorrect_answer: 3,
            player_total_score: 150,
        }
    );
    assert_eq!(
        updated[1].statistic,
        PlayerStatistic {
            player_play_games: 5,
            player_win_games: 2,
            player_correct_answer: 6,
            player_incorrect_answer: 2,
            player_total_score: 130,
        }
    );
    assert_eq!(updated[2].statistic, stat(5));
}
