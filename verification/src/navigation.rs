//! Which page the organiser sees next while a game is played: the current
//! question, the change of foursome between rounds, the results of a tour,
//! or the final results.

use vstd::prelude::*;
use vstd::string::*;
use crate::text::{decimal, push_decimal};

verus! {

/// The schema row whose question closes a qualifying tour, or the game.
pub open spec fn closes_tour(id: int) -> bool {
    id == 80 || id == 160 || id == 240 || id == 270
}

/// Where the game goes once a question is over.
#[derive(Clone, Copy, PartialEq, Eq, Structural, Debug)]
pub enum AfterQuestion {
    /// The last question of a tour (or of the game) was played: the
    /// duplicate zeros are deleted and the tour's results are shown.
    ResultTour,
    /// The same foursome plays on: the next question.
    Game,
    /// The round is over: the next foursome is called.
    ChangingRound,
    /// No question has been played, which should not happen.
    MissingMaxId,
}

/// `max_id` is the highest schema row already played; `rounds` the round
/// of the last played row and of the first row still to play, when both
/// exist.
pub open spec fn after_question(max_id: Option<i32>, rounds: Option<(Option<i64>, Option<i64>)>) -> AfterQuestion {
    match max_id {
        None => AfterQuestion::MissingMaxId,
        Some(m) => if closes_tour(m as int) {
            AfterQuestion::ResultTour
        } else {
            let (r1, r2) = match rounds {
                Some(r) => r,
                None => (Some(1i64), Some(1i64)),
            };
            if r1 == r2 {
                AfterQuestion::Game
            } else {
                AfterQuestion::ChangingRound
            }
        },
    }
}

/// Decides where the game goes once a question is over.
pub fn changing_four_players(max_id: Option<i32>, rounds: Option<(Option<i64>, Option<i64>)>) -> (a: AfterQuestion)
    ensures
        a == after_question(max_id, rounds),
        a == AfterQuestion::ResultTour <==> (max_id matches Some(m) && (m == 80 || m == 160 || m == 240 || m == 270)),
{
    proof {
        if let Some(m) = max_id {
            lemma_results_exactly_at_tour_ends(m, rounds);
        }
    }
    match max_id {
        None => AfterQuestion::MissingMaxId,
        Some(m) => {
            if m == 80 || m == 160 || m == 240 || m == 270 {
                AfterQuestion::ResultTour
            } else {
                let (r1, r2) = match rounds {
                    Some(r) => r,
                    None => (Some(1i64), Some(1i64)),
                };
                if r1 == r2 {
                    AfterQuestion::Game
                } else {
                    AfterQuestion::ChangingRound
                }
            }
        },
    }
}

/// The page shown when `max_id` is unknown.
pub fn missing_max_id_header() -> (h: String)
    ensures
        h@ == "max_id не определен. Сделайте скриншот и отправьте его администратору!"@,
{
    String::from_str("max_id не определен. Сделайте скриншот и отправьте его администратору!")
}

/// A last entry of -10 means a wrong answer to the first question of a new
/// round: that question is still on, so the question page is shown again.
pub open spec fn stays_on_question(last_score: i8) -> bool {
    last_score == -10
}

/// Between two rounds: the question page again when the last entry is a
/// wrong answer worth 10 (the new round's first question is still on),
/// otherwise the page that calls the next foursome.
pub fn changing_round(last_score: i8) -> (show_round_change: bool)
    ensures
        show_round_change == !stays_on_question(last_score),
{
    last_score != -10
}

/// The page at the end of a tour.
#[derive(PartialEq, Eq, Debug)]
pub enum TourPage {
    /// The game is over: the final results.
    Final,
    /// The question page again (see `changing_round`).
    Game,
    /// The results of the tour, with the two headers of the page.
    ResultTour { header_tour: String, header_next_players: String },
}

pub open spec fn tour_headers(tour: i8, round: i8) -> (Seq<char>, Seq<char>) {
    if tour == 3 && round == 4 {
        ("Отборочные туры окончены с результатами:"@, "ФИНАЛИСТЫ:"@)
    } else {
        (decimal(tour as int) + " тур окончен с результатами:"@, "Приглашается следующая четвёрка игроков:"@)
    }
}

/// The page at the end of a tour: the final results once the last
/// question (row 270) is played; otherwise the tour's results, headed for
/// the finalists after the third tour. `last_score` is the last entry of
/// the log and `tour`, `round` those of the last played row; they are
/// read only when the game is not over.
pub fn result_tour(max_id: Option<i32>, last_score: Option<i8>, tour: i8, round: i8) -> (p: TourPage)
    requires
        max_id != Some(270i32) ==> last_score is Some,
    ensures
        max_id == Some(270i32) ==> p is Final,
        max_id != Some(270i32) && stays_on_question(last_score.unwrap()) ==> p is Game,
        max_id != Some(270i32) && !stays_on_question(last_score.unwrap()) ==> (p matches TourPage::ResultTour {
            header_tour,
            header_next_players,
        } && header_tour@ == tour_headers(tour, round).0 && header_next_players@ == tour_headers(tour, round).1),
{
    if max_id == Some(270i32) {
        return TourPage::Final;
    }
    let score = match last_score {
        Some(s) => s,
        None => 0,
    };
    if score == -10 {
        TourPage::Game
    } else if tour == 3 && round == 4 {
        TourPage::ResultTour {
            header_tour: String::from_str("Отборочные туры окончены с результатами:"),
            header_next_players: String::from_str("ФИНАЛИСТЫ:"),
        }
    } else {
        let mut h = String::new();
        push_decimal(&mut h, tour as i64);
        h.append(" тур окончен с результатами:");
        TourPage::ResultTour {
            header_tour: h,
            header_next_players: String::from_str("Приглашается следующая четвёрка игроков:"),
        }
    }
}

/// The question that is on: what the first schema row still to play
/// joins from the pack (absent fields are `None`), and the sender of the
/// question when a player sent it (last name, first name, patronymic,
/// city).
pub struct NextQuestion {
    pub topic_five_questions: Option<String>,
    pub question: Option<String>,
    pub answer: Option<String>,
    pub price_question: i8,
    pub question_id: i32,
    pub tour: i8,
    pub round: i8,
    pub author: Option<(String, String, String, String)>,
}

/// The question page.
pub struct DataGamePage {
    pub header: String,
    pub game_id: i64,
    pub questions_pac_id: i64,
    pub pac_name: String,
    pub topic_five_questions: String,
    pub question_id: i32,
    pub last_name_player_question: String,
    pub first_name_player_question: String,
    pub patronymic_player_question: String,
    pub location_player_question: String,
    pub question: String,
    pub answer: String,
    pub price_question: i8,
    pub tour: i8,
    pub round: i8,
}

pub open spec fn or_text(v: Option<String>, default: Seq<char>) -> Seq<char> {
    match v {
        Some(s) => s@,
        None => default,
    }
}

fn or_string(v: Option<String>, default: &str) -> (s: String)
    ensures
        s@ == or_text(v, default@),
{
    match v {
        Some(s) => s,
        None => String::from_str(default),
    }
}

/// The question page of the question that is on; the game is over when
/// the highest played row is the last one (270), and the final results
/// are shown instead (`None`).
pub fn game(
    max_id: Option<i32>,
    header: String,
    game_id: i64,
    questions_pac_id: i64,
    pac_name: String,
    next: NextQuestion,
) -> (page: Option<DataGamePage>)
    ensures
        max_id == Some(270i32) ==> page is None,
        max_id != Some(270i32) ==> (page matches Some(p) && {
            &&& p.header == header && p.game_id == game_id && p.questions_pac_id == questions_pac_id
            &&& p.pac_name == pac_name
            &&& p.topic_five_questions@ == or_text(next.topic_five_questions, "Название пятёрки вопросов не указано"@)
            &&& p.question@ == or_text(next.question, "Вопрос не указан"@)
            &&& p.answer@ == or_text(next.answer, "Ответ не указан"@)
            &&& p.question_id == next.question_id && p.price_question == next.price_question
            &&& p.tour == next.tour && p.round == next.round
            &&& match next.author {
                Some((l, f, pa, c)) => p.last_name_player_question == l && p.first_name_player_question == f
                    && p.patronymic_player_question == pa && p.location_player_question == c,
                None => p.last_name_player_question@ == Seq::<char>::empty()
                    && p.first_name_player_question@ == Seq::<char>::empty()
                    && p.patronymic_player_question@ == Seq::<char>::empty()
                    && p.location_player_question@ == Seq::<char>::empty(),
            }
        }),
{
    if max_id == Some(270i32) {
        return None;
    }
    let (last, first, patronymic, location) = match next.author {
        Some(a) => a,
        None => (String::new(), String::new(), String::new(), String::new()),
    };
    Some(
        DataGamePage {
            header,
            game_id,
            questions_pac_id,
            pac_name,
            topic_five_questions: or_string(next.topic_five_questions, "Название пятёрки вопросов не указано"),
            question_id: next.question_id,
            last_name_player_question: last,
            first_name_player_question: first,
            patronymic_player_question: patronymic,
            location_player_question: location,
            question: or_string(next.question, "Вопрос не указан"),
            answer: or_string(next.answer, "Ответ не указан"),
            price_question: next.price_question,
            tour: next.tour,
            round: next.round,
        },
    )
}

/// The questions of a tour close at rows 80, 160 and 240, so every tour's
/// results are shown once its last question is played, and the question
/// page stays on within a round.
pub proof fn lemma_tour_ends_show_results(max_id: i32, rounds: Option<(Option<i64>, Option<i64>)>)
    requires
        max_id == 80 || max_id == 160 || max_id == 240 || max_id == 270,
    ensures
        after_question(Some(max_id), rounds) == AfterQuestion::ResultTour,
{
}

/// Within a round (the last played row and the next row share the round),
/// away from the end of a tour, the next question follows.
pub proof fn lemma_same_round_goes_on(max_id: i32, r: i64)
    requires
        !closes_tour(max_id as int),
    ensures
        after_question(Some(max_id), Some((Some(r), Some(r)))) == AfterQuestion::Game,
        after_question(Some(max_id), None) == AfterQuestion::Game,
{
}

/// The tour's results follow a question exactly when the highest played
/// row is 80, 160, 240 or 270. After any other row the same foursome goes
/// on when the last played row and the next row share a round, and the
/// next foursome is called when they do not.
pub proof fn lemma_results_exactly_at_tour_ends(max_id: i32, rounds: Option<(Option<i64>, Option<i64>)>)
    ensures
        after_question(Some(max_id), rounds) == AfterQuestion::ResultTour <==> (max_id == 80 || max_id == 160
            || max_id == 240 || max_id == 270),
        !(max_id == 80 || max_id == 160 || max_id == 240 || max_id == 270) ==> match rounds {
            Some((r1, r2)) => after_question(Some(max_id), rounds) == if r1 == r2 {
                AfterQuestion::Game
            } else {
                AfterQuestion::ChangingRound
            },
            None => after_question(Some(max_id), rounds) == AfterQuestion::Game,
        },
{
}

} // verus!
