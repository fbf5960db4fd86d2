//! Scoring of a game: what is recorded in the game's log when the organiser
//! marks an answer, and how the game moves on from question to question,
//! round to round and tour to tour.

use vstd::prelude::*;
use crate::schedule::Foursome;

verus! {

/// One row of a game's log (`game_{id}`): the score a player got for a
/// question. The log is kept in insertion order.
#[derive(Clone, Copy, PartialEq, Eq, Debug)]
pub struct ScoreEntry {
    pub questions_pac_id: i64,
    pub tour: i8,
    pub round: i8,
    pub player_id: i64,
    pub question_id: i64,
    pub score: i32,
}

/// The question being played: its pack, tour, round and id.
#[derive(Clone, Copy, PartialEq, Eq, Debug)]
pub struct QuestionRef {
    pub questions_pac_id: i64,
    pub tour: i8,
    pub round: i8,
    pub question_id: i64,
}

pub open spec fn abs(x: int) -> int {
    if x < 0 {
        -x
    } else {
        x
    }
}

/// Entry `e` records an answer of `player` to question `q` worth `price` in
/// absolute value.
pub open spec fn records_answer(e: ScoreEntry, q: QuestionRef, player: i64, price: int) -> bool {
    &&& e.questions_pac_id == q.questions_pac_id
    &&& e.tour == q.tour
    &&& e.round == q.round
    &&& e.player_id == player
    &&& e.question_id == q.question_id
    &&& abs(e.score as int) == abs(price)
}

/// The log holds no answer of `player` to `q` worth `price` in absolute
/// value: recording it would not count the same answer twice.
pub open spec fn answer_unique(log: Seq<ScoreEntry>, q: QuestionRef, player: i64, price: int) -> bool {
    forall|k: int| 0 <= k < log.len() ==> !records_answer(#[trigger] log[k], q, player, price)
}

/// The entry that records `score` for `player` on question `q`.
pub open spec fn entry(q: QuestionRef, player: i64, score: i32) -> ScoreEntry {
    ScoreEntry {
        questions_pac_id: q.questions_pac_id,
        tour: q.tour,
        round: q.round,
        player_id: player,
        question_id: q.question_id,
        score,
    }
}

fn make_entry(q: &QuestionRef, player: i64, score: i32) -> (e: ScoreEntry)
    ensures
        e == entry(*q, player, score),
{
    ScoreEntry {
        questions_pac_id: q.questions_pac_id,
        tour: q.tour,
        round: q.round,
        player_id: player,
        question_id: q.question_id,
        score,
    }
}

/// Whether the log holds no answer of `player` to `q` worth `price_question`
/// in absolute value (so that reloading the organiser's page does not score
/// an answer twice).
pub fn result_answer_unique(log: &Vec<ScoreEntry>, q: &QuestionRef, player_id: i64, price_question: i32) -> (res:
    bool)
    requires
        price_question != i32::MIN,
    ensures
        res == answer_unique(log@, *q, player_id, price_question as int),
{
    let a: i32 = if price_question < 0 {
        -price_question
    } else {
        price_question
    };
    let mut i: usize = 0;
    while i < log.len()
        invariant
            i <= log@.len(),
            a == abs(price_question as int),
            forall|k: int| 0 <= k < i ==> !records_answer(#[trigger] log@[k], *q, player_id, price_question as int),
        decreases log.len() - i,
    {
        let e = log[i];
        if e.questions_pac_id == q.questions_pac_id && e.tour == q.tour && e.round == q.round
            && e.player_id == player_id && e.question_id == q.question_id && (e.score == a || e.score
            == -a) {
            assert(records_answer(log@[i as int], *q, player_id, price_question as int));
            return false;
        }
        i = i + 1;
    }
    true
}

/// The four entries of a correct answer of `player` among `four`: the price
/// of the question for the player, nothing for the other three, in the
/// order of the foursome. No entry when the player is not one of the four.
pub open spec fn correct_answer_entries(four: Foursome, q: QuestionRef, player: i64, price: i32) -> Seq<
    ScoreEntry,
> {
    if four.contains(player) {
        seq![
            entry(q, four.p1, if four.p1 == player { price } else { 0 }),
            entry(q, four.p2, if four.p2 == player { price } else { 0 }),
            entry(q, four.p3, if four.p3 == player { price } else { 0 }),
            entry(q, four.p4, if four.p4 == player { price } else { 0 }),
        ]
    } else {
        seq![]
    }
}

/// What marking a correct answer does: the entries added to the log, and
/// whether the question is then marked as played. A repeated answer (the
/// page was reloaded) adds nothing and marks nothing.
pub struct CorrectAnswerPlan {
    pub entries: Vec<ScoreEntry>,
    pub question_played: bool,
}

pub open spec fn correct_answer_plan(log: Seq<ScoreEntry>, four: Foursome, q: QuestionRef, player: i64, price: i32) -> (
    Seq<ScoreEntry>,
    bool,
) {
    if answer_unique(log, q, player, price as int) {
        (correct_answer_entries(four, q, player, price), true)
    } else {
        (seq![], false)
    }
}

/// The organiser marks `player_id` as having answered question `q` of
/// `four` correctly.
pub fn rec_correct_answer_player(
    log: &Vec<ScoreEntry>,
    four: Foursome,
    q: &QuestionRef,
    player_id: i64,
    price_question: i32,
) -> (plan: CorrectAnswerPlan)
    requires
        price_question != i32::MIN,
    ensures
        (plan.entries@, plan.question_played) == correct_answer_plan(log@, four, *q, player_id, price_question),
{
    if !result_answer_unique(log, q, player_id, price_question) {
        return CorrectAnswerPlan { entries: Vec::new(), question_played: false };
    }
    let mut entries: Vec<ScoreEntry> = Vec::new();
    if four.p1 == player_id || four.p2 == player_id || four.p3 == player_id || four.p4 == player_id {
        entries.push(make_entry(q, four.p1, if four.p1 == player_id { price_question } else { 0 }));
        entries.push(make_entry(q, four.p2, if four.p2 == player_id { price_question } else { 0 }));
        entries.push(make_entry(q, four.p3, if four.p3 == player_id { price_question } else { 0 }));
        entries.push(make_entry(q, four.p4, if four.p4 == player_id { price_question } else { 0 }));
    }
    assert(entries@ =~= correct_answer_entries(four, *q, player_id, price_question));
    CorrectAnswerPlan { entries, question_played: true }
}

/// The last (at most four) scores of the log, latest first.
pub open spec fn last_scores(log: Seq<ScoreEntry>) -> Seq<int> {
    let n = log.len();
    let m = if n < 4 {
        n
    } else {
        4
    };
    Seq::new(m, |i: int| log[n - 1 - i].score as int)
}

/// All four players answered the question wrongly: the last four entries of
/// the log carry the same score.
pub open spec fn last_four_equal(log: Seq<ScoreEntry>) -> bool {
    &&& log.len() >= 4
    &&& log[log.len() - 1].score == log[log.len() - 2].score
    &&& log[log.len() - 1].score == log[log.len() - 3].score
    &&& log[log.len() - 1].score == log[log.len() - 4].score
}

/// How the game goes on after an answer has been marked.
#[derive(Clone, Copy, PartialEq, Eq, Debug)]
pub enum AfterAnswer {
    /// The same question stays on the screen.
    SameQuestion,
    /// The question is over: it is marked as played and the game moves on.
    QuestionOver,
}

/// What marking a wrong answer does: the entry added to the log (none when
/// the same wrong answer was already recorded) and how the game goes on.
pub struct IncorrectAnswerPlan {
    pub entry: Option<ScoreEntry>,
    pub next: AfterAnswer,
}

pub open spec fn incorrect_answer_plan(log: Seq<ScoreEntry>, q: QuestionRef, player: i64, price: i32) -> (
    Option<ScoreEntry>,
    AfterAnswer,
) {
    let penalty = (-price) as i32;
    if !answer_unique(log, q, player, penalty as int) {
        (None, AfterAnswer::SameQuestion)
    } else if last_four_equal(log.push(entry(q, player, penalty))) {
        (Some(entry(q, player, penalty)), AfterAnswer::QuestionOver)
    } else {
        (Some(entry(q, player, penalty)), AfterAnswer::SameQuestion)
    }
}

/// The organiser marks `player_id` as having answered question `q` wrongly:
/// the price of the question is taken from the player, and when all four
/// players have now answered wrongly the question is over.
pub fn rec_incorrect_answer_player(
    log: &Vec<ScoreEntry>,
    q: &QuestionRef,
    player_id: i64,
    price_question: i32,
) -> (plan: IncorrectAnswerPlan)
    requires
        price_question != i32::MIN,
    ensures
        (plan.entry, plan.next) == incorrect_answer_plan(log@, *q, player_id, price_question),
        plan.entry matches Some(e) ==> (plan.next == AfterAnswer::QuestionOver <==> (log@.len() >= 3
            && score_from_end(log@, 0) == e.score && score_from_end(log@, 1) == e.score && score_from_end(log@, 2)
            == e.score)),
        plan.entry is None ==> plan.next == AfterAnswer::SameQuestion,
{
    proof {
        lemma_question_closes_after_four_wrong(log@, *q, player_id, price_question);
    }
    let penalty: i32 = -price_question;
    if !result_answer_unique(log, q, player_id, penalty) {
        return IncorrectAnswerPlan { entry: None, next: AfterAnswer::SameQuestion };
    }
    let e = make_entry(q, player_id, penalty);
    let n = log.len();
    let ghost extended = log@.push(e);
    let all_wrong = n >= 3 && log[n - 1].score == penalty && log[n - 2].score == penalty && log[n
        - 3].score == penalty;
    proof {
        if n >= 3 {
            assert(extended[extended.len() - 1] == e);
            assert(extended[extended.len() - 2] == log@[n - 1]);
            assert(extended[extended.len() - 3] == log@[n - 2]);
            assert(extended[extended.len() - 4] == log@[n - 3]);
        }
        assert(all_wrong == last_four_equal(extended));
    }
    if all_wrong {
        IncorrectAnswerPlan { entry: Some(e), next: AfterAnswer::QuestionOver }
    } else {
        IncorrectAnswerPlan { entry: Some(e), next: AfterAnswer::SameQuestion }
    }
}

/// The entries of "nobody knows the answer": a zero for each of the four
/// players in order, stopping at the first player whose zero is already
/// recorded. The flag tells whether all four were recorded.
pub open spec fn dont_know_entries(log: Seq<ScoreEntry>, players: Seq<i64>, q: QuestionRef) -> (
    Seq<ScoreEntry>,
    bool,
)
    decreases players.len(),
{
    if players.len() == 0 {
        (seq![], true)
    } else if !answer_unique(log, q, players[0], 0) {
        (seq![], false)
    } else {
        let rest = dont_know_entries(log.push(entry(q, players[0], 0)), players.drop_first(), q);
        (seq![entry(q, players[0], 0)] + rest.0, rest.1)
    }
}

pub open spec fn foursome_seq(four: Foursome) -> Seq<i64> {
    seq![four.p1, four.p2, four.p3, four.p4]
}

/// What "nobody knows the answer" does: the zero entries added to the log,
/// and whether all four were added (then the question is marked played).
pub struct DontKnowPlan {
    pub entries: Vec<ScoreEntry>,
    pub question_played: bool,
}

/// The organiser marks that none of `four` knows the answer to `q`: each of
/// them gets a zero for the question, in order; a zero that is already
/// recorded stops the marking (the page was reloaded).
pub fn players_dont_know_answer(log: &Vec<ScoreEntry>, four: Foursome, q: &QuestionRef) -> (plan:
    DontKnowPlan)
    ensures
        (plan.entries@, plan.question_played) == dont_know_entries(log@, foursome_seq(four), *q),
{
    let players: Vec<i64> = vec![four.p1, four.p2, four.p3, four.p4];
    let mut current: Vec<ScoreEntry> = log.clone();
    let mut entries: Vec<ScoreEntry> = Vec::new();
    let mut i: usize = 0;
    assert(players@ =~= foursome_seq(four));
    assert(players@.skip(0) =~= players@);
    while i < 4
        invariant
            players@.len() == 4,
            players@ == foursome_seq(four),
            i <= 4,
            current@ == log@ + entries@,
            dont_know_entries(log@, players@, *q) == ({
                let rest = dont_know_entries(current@, players@.skip(i as int), *q);
                (entries@ + rest.0, rest.1)
            }),
        decreases 4 - i,
    {
        let p = players[i];
        assert(players@.skip(i as int)[0] == p);
        assert(players@.skip(i as int).drop_first() =~= players@.skip(i + 1));
        if !result_answer_unique(&current, q, p, 0) {
            assert(entries@ + seq![] =~= entries@);
            return DontKnowPlan { entries, question_played: false };
        }
        let e = make_entry(q, p, 0);
        proof {
            let rest = dont_know_entries(current@.push(e), players@.skip(i + 1), *q);
            assert(entries@ + (seq![e] + rest.0) =~= entries@.push(e) + rest.0);
        }
        current.push(e);
        entries.push(e);
        i = i + 1;
    }
    assert(players@.skip(4) =~= Seq::<i64>::empty());
    assert(entries@ + seq![] =~= entries@);
    DontKnowPlan { entries, question_played: true }
}

/// Entries of `log` by `player` for question `question`.
pub open spec fn group_count(log: Seq<ScoreEntry>, player: i64, question: i64) -> nat
    decreases log.len(),
{
    if log.len() == 0 {
        0
    } else {
        group_count(log.drop_last(), player, question) + if log.last().player_id == player
            && log.last().question_id == question {
            1nat
        } else {
            0nat
        }
    }
}

/// A zero entry of a player for a question that the player has other
/// entries for (a wrong answer leaves both a penalty and a zero).
pub open spec fn duplicate_zero(log: Seq<ScoreEntry>, e: ScoreEntry) -> bool {
    e.score == 0 && group_count(log, e.player_id, e.question_id) > 1
}

/// The entries of `s` that are not duplicate zeros of `full`, in order.
pub open spec fn kept_entries(full: Seq<ScoreEntry>, s: Seq<ScoreEntry>) -> Seq<ScoreEntry>
    decreases s.len(),
{
    if s.len() == 0 {
        s
    } else {
        let r = kept_entries(full, s.drop_last());
        if duplicate_zero(full, s.last()) {
            r
        } else {
            r.push(s.last())
        }
    }
}

/// The log once its duplicate zeros are deleted.
pub open spec fn without_duplicate_zeros(log: Seq<ScoreEntry>) -> Seq<ScoreEntry> {
    kept_entries(log, log)
}

fn group_count_exec(log: &Vec<ScoreEntry>, player: i64, question: i64) -> (n: usize)
    ensures
        n == group_count(log@, player, question),
{
    let mut n: usize = 0;
    let mut i: usize = 0;
    while i < log.len()
        invariant
            i <= log@.len(),
            n == group_count(log@.take(i as int), player, question),
            n <= i,
        decreases log.len() - i,
    {
        assert(log@.take(i + 1).drop_last() =~= log@.take(i as int));
        if log[i].player_id == player && log[i].question_id == question {
            n = n + 1;
        }
        i = i + 1;
    }
    assert(log@.take(log@.len() as int) =~= log@);
    n
}

/// Which entries of the log stay when the duplicate zeros are deleted (at
/// the end of each tour): `keep[k]` tells whether entry `k` stays.
pub fn delete_duplicate_records(log: &Vec<ScoreEntry>) -> (keep: Vec<bool>)
    ensures
        keep@.len() == log@.len(),
        forall|k: int| 0 <= k < log@.len() ==> keep@[k] == !duplicate_zero(log@, #[trigger] log@[k]),
{
    let mut keep: Vec<bool> = Vec::new();
    let mut i: usize = 0;
    while i < log.len()
        invariant
            i <= log@.len(),
            keep@.len() == i,
            forall|k: int| 0 <= k < i ==> keep@[k] == !duplicate_zero(log@, #[trigger] log@[k]),
        decreases log.len() - i,
    {
        let e = log[i];
        let dup = e.score == 0 && group_count_exec(log, e.player_id, e.question_id) > 1;
        keep.push(!dup);
        i = i + 1;
    }
    keep
}

proof fn lemma_kept_contains(full: Seq<ScoreEntry>, s: Seq<ScoreEntry>, e: ScoreEntry)
    ensures
        kept_entries(full, s).contains(e) <==> s.contains(e) && !duplicate_zero(full, e),
    decreases s.len(),
{
    if s.len() > 0 {
        let init = s.drop_last();
        let last = s.last();
        let r = kept_entries(full, init);
        lemma_kept_contains(full, init, e);
        assert(s =~= init.push(last));
        assert(s[s.len() - 1] == last);
        if r.contains(e) {
            let k = choose|k: int| 0 <= k < r.len() && r[k] == e;
            assert(r.push(last)[k] == e);
            let j = choose|j: int| 0 <= j < init.len() && init[j] == e;
            assert(s[j] == e);
        }
        if !duplicate_zero(full, last) {
            assert(r.push(last)[r.len() as int] == last);
            if r.push(last).contains(e) && e != last {
                let k = choose|k: int| 0 <= k < r.push(last).len() && r.push(last)[k] == e;
                assert(r[k] == e);
            }
        }
        if s.contains(e) && e != last {
            let k = choose|k: int| 0 <= k < s.len() && s[k] == e;
            assert(init[k] == e);
        }
    }
}

proof fn lemma_group_count_push(s: Seq<ScoreEntry>, e: ScoreEntry, player: i64, question: i64)
    ensures
        group_count(s.push(e), player, question) == group_count(s, player, question) + if e.player_id == player
            && e.question_id == question {
            1nat
        } else {
            0nat
        },
{
    assert(s.push(e).drop_last() =~= s);
}

proof fn lemma_kept_group_count(full: Seq<ScoreEntry>, s: Seq<ScoreEntry>, player: i64, question: i64)
    ensures
        group_count(kept_entries(full, s), player, question) <= group_count(s, player, question),
    decreases s.len(),
{
    if s.len() > 0 {
        lemma_kept_group_count(full, s.drop_last(), player, question);
        lemma_group_count_push(kept_entries(full, s.drop_last()), s.last(), player, question);
    }
}

proof fn lemma_kept_all(full: Seq<ScoreEntry>, s: Seq<ScoreEntry>)
    requires
        forall|k: int| 0 <= k < s.len() ==> !duplicate_zero(full, #[trigger] s[k]),
    ensures
        kept_entries(full, s) == s,
    decreases s.len(),
{
    if s.len() > 0 {
        let init = s.drop_last();
        assert forall|k: int| 0 <= k < init.len() implies !duplicate_zero(full, #[trigger] init[k]) by {
            assert(init[k] == s[k]);
        }
        lemma_kept_all(full, init);
        assert(!duplicate_zero(full, s[s.len() - 1]));
        assert(init.push(s.last()) =~= s);
    }
}

/// Deleting the duplicate zeros twice deletes nothing more than once: the
/// second pass finds none left.
pub proof fn lemma_duplicate_deletion_idempotent(log: Seq<ScoreEntry>)
    ensures
        without_duplicate_zeros(without_duplicate_zeros(log)) == without_duplicate_zeros(log),
{
    let d = without_duplicate_zeros(log);
    assert forall|k: int| 0 <= k < d.len() implies !duplicate_zero(d, #[trigger] d[k]) by {
        let e = d[k];
        assert(d.contains(e));
        lemma_kept_contains(log, log, e);
        lemma_kept_group_count(log, log, e.player_id, e.question_id);
    }
    lemma_kept_all(d, d);
}

/// Deleting duplicate zeros keeps every entry that scores, and keeps only
/// entries of the log.
pub proof fn lemma_duplicate_deletion_keeps_scores(log: Seq<ScoreEntry>, e: ScoreEntry)
    ensures
        log.contains(e) && e.score != 0 ==> without_duplicate_zeros(log).contains(e),
        without_duplicate_zeros(log).contains(e) ==> log.contains(e),
{
    lemma_kept_contains(log, log, e);
}

/// What "cancel the last scoring" undoes.
#[derive(Clone, Copy, PartialEq, Eq, Structural, Debug)]
pub enum Cancellation {
    /// All answers to the last played question are deleted and the
    /// question is played again.
    UndoLastQuestion,
    /// Only the last entry of the log (a wrong answer) is deleted.
    DeleteLastEntry,
}

pub open spec fn all_negative(scores: Seq<int>) -> bool {
    forall|k: int| 0 <= k < scores.len() ==> #[trigger] scores[k] < 0
}

/// When the last (up to four) entries are all penalties the whole question
/// is played again; otherwise a penalty as the last entry is withdrawn on
/// its own; otherwise the last question is played again.
pub open spec fn cancellation(log: Seq<ScoreEntry>) -> Cancellation {
    if all_negative(last_scores(log)) {
        Cancellation::UndoLastQuestion
    } else if log.last().score < 0 {
        Cancellation::DeleteLastEntry
    } else {
        Cancellation::UndoLastQuestion
    }
}

/// The organiser cancels the last scoring of the game whose log is `log`.
pub fn cancellation_last_accrual_points(log: &Vec<ScoreEntry>) -> (c: Cancellation)
    ensures
        c == cancellation(log@),
        c == Cancellation::DeleteLastEntry <==> (log@.len() > 0 && score_from_end(log@, 0) < 0 && exists|i: int|
            0 <= i < 4 && i < log@.len() && #[trigger] score_from_end(log@, i) >= 0),
{
    proof {
        lemma_cancel_withdraws_a_lone_penalty(log@);
    }
    let n = log.len();
    let m: usize = if n < 4 {
        n
    } else {
        4
    };
    let mut all_neg = true;
    let mut i: usize = 0;
    while i < m
        invariant
            n == log@.len(),
            m == (if n < 4 {
                n
            } else {
                4
            }),
            i <= m,
            all_neg == forall|k: int| 0 <= k < i ==> #[trigger] last_scores(log@)[k] < 0,
        decreases m - i,
    {
        assert(last_scores(log@)[i as int] == log@[n - 1 - i].score as int);
        if log[n - 1 - i].score >= 0 {
            all_neg = false;
        }
        i = i + 1;
    }
    if all_neg {
        Cancellation::UndoLastQuestion
    } else if log[n - 1].score < 0 {
        Cancellation::DeleteLastEntry
    } else {
        Cancellation::UndoLastQuestion
    }
}

/// The log with every entry of question `question_id` deleted, in order.
pub open spec fn without_question(log: Seq<ScoreEntry>, question_id: i64) -> Seq<ScoreEntry>
    decreases log.len(),
{
    if log.len() == 0 {
        log
    } else {
        let r = without_question(log.drop_last(), question_id);
        if log.last().question_id == question_id {
            r
        } else {
            r.push(log.last())
        }
    }
}

/// The entries of `log` whose flag in `keep` is set, in order.
pub open spec fn kept_by(log: Seq<ScoreEntry>, keep: Seq<bool>) -> Seq<ScoreEntry>
    decreases log.len(),
{
    if log.len() == 0 {
        log
    } else {
        let r = kept_by(log.drop_last(), keep);
        if keep[log.len() - 1] {
            r.push(log.last())
        } else {
            r
        }
    }
}

proof fn lemma_kept_by_prefix(log: Seq<ScoreEntry>, keep: Seq<bool>, more: Seq<bool>)
    requires
        keep.len() >= log.len(),
        keep == more.take(keep.len() as int),
        more.len() >= keep.len(),
    ensures
        kept_by(log, keep) == kept_by(log, more),
    decreases log.len(),
{
    if log.len() > 0 {
        lemma_kept_by_prefix(log.drop_last(), keep, more);
        assert(keep[log.len() - 1] == more[log.len() - 1]);
    }
}

/// Which entries of the log stay when the last played question,
/// `question_id`, is played again: every entry but those of that question
/// (`keep[k]` tells whether entry `k` stays).
pub fn del_last_rec_schema_game(log: &Vec<ScoreEntry>, question_id: i64) -> (keep: Vec<bool>)
    ensures
        keep@.len() == log@.len(),
        forall|k: int| 0 <= k < log@.len() ==> keep@[k] == (#[trigger] log@[k].question_id != question_id),
        kept_by(log@, keep@) == without_question(log@, question_id),
{
    let mut keep: Vec<bool> = Vec::new();
    let mut i: usize = 0;
    while i < log.len()
        invariant
            i <= log@.len(),
            keep@.len() == i,
            forall|k: int| 0 <= k < i ==> keep@[k] == (#[trigger] log@[k].question_id != question_id),
            kept_by(log@.take(i as int), keep@) == without_question(log@.take(i as int), question_id),
        decreases log.len() - i,
    {
        let ghost old_keep = keep@;
        keep.push(log[i].question_id != question_id);
        proof {
            let pre = log@.take(i as int);
            let cur = log@.take(i + 1);
            assert(cur.drop_last() =~= pre);
            assert(cur.last() == log@[i as int]);
            assert(old_keep =~= keep@.take(i as int));
            lemma_kept_by_prefix(pre, old_keep, keep@);
        }
        i = i + 1;
    }
    assert(log@.take(log@.len() as int) =~= log@);
    keep
}

proof fn lemma_without_question_append(a: Seq<ScoreEntry>, b: Seq<ScoreEntry>, question_id: i64)
    ensures
        without_question(a + b, question_id) == without_question(a, question_id) + without_question(b, question_id),
    decreases b.len(),
{
    if b.len() == 0 {
        assert(a + b =~= a);
        assert(without_question(a, question_id) + without_question(b, question_id) =~= without_question(a, question_id));
    } else {
        assert((a + b).drop_last() =~= a + b.drop_last());
        assert((a + b).last() == b.last());
        lemma_without_question_append(a, b.drop_last(), question_id);
        let wa = without_question(a, question_id);
        let wb = without_question(b.drop_last(), question_id);
        assert((wa + wb).push(b.last()) =~= wa + wb.push(b.last()));
    }
}

proof fn lemma_without_absent_question(log: Seq<ScoreEntry>, question_id: i64)
    requires
        forall|k: int| 0 <= k < log.len() ==> (#[trigger] log[k]).question_id != question_id,
    ensures
        without_question(log, question_id) == log,
    decreases log.len(),
{
    if log.len() > 0 {
        lemma_without_absent_question(log.drop_last(), question_id);
        assert(log.drop_last().push(log.last()) =~= log);
    }
}

/// Cancelling right after a correct answer to a question that had no
/// entries before restores the log: the whole question is played again,
/// and deleting its entries leaves the log as it was before the answer.
pub proof fn lemma_cancel_undoes_correct_answer(log: Seq<ScoreEntry>, four: Foursome, q: QuestionRef, player: i64, price: i32)
    requires
        price > 0,
        four.contains(player),
        correct_answer_plan(log, four, q, player, price).1,
        forall|k: int| 0 <= k < log.len() ==> (#[trigger] log[k]).question_id != q.question_id,
    ensures
        ({
            let after = log + correct_answer_plan(log, four, q, player, price).0;
            cancellation(after) == Cancellation::UndoLastQuestion && without_question(after, q.question_id) == log
        }),
{
    let entries = correct_answer_entries(four, q, player, price);
    let after = log + entries;
    let n: int = log.len() as int;
    assert(after[n + 3] == entries[3]);
    assert(after.last() == entries[3]);
    assert(after.last().score >= 0);
    lemma_without_question_append(log, entries, q.question_id);
    lemma_without_absent_question(log, q.question_id);
    let e = entries;
    assert(e.drop_last().drop_last().drop_last().drop_last() =~= Seq::<ScoreEntry>::empty());
    assert(e.drop_last() =~= seq![e[0], e[1], e[2]]);
    assert(seq![e[0], e[1], e[2]].drop_last() =~= seq![e[0], e[1]]);
    assert(seq![e[0], e[1]].drop_last() =~= seq![e[0]]);
    assert(seq![e[0]].drop_last() =~= Seq::<ScoreEntry>::empty());
    assert(e[0].question_id == q.question_id && e[1].question_id == q.question_id);
    assert(e[2].question_id == q.question_id && e[3].question_id == q.question_id);
    assert(without_question(Seq::<ScoreEntry>::empty(), q.question_id) =~= Seq::<ScoreEntry>::empty());
    assert(seq![e[0]].last() == e[0]);
    assert(seq![e[0], e[1]].last() == e[1]);
    assert(seq![e[0], e[1], e[2]].last() == e[2]);
    assert(e.last() == e[3]);
    assert(without_question(seq![e[0]], q.question_id) =~= Seq::<ScoreEntry>::empty());
    assert(without_question(seq![e[0], e[1]], q.question_id) =~= Seq::<ScoreEntry>::empty());
    assert(without_question(seq![e[0], e[1], e[2]], q.question_id) =~= Seq::<ScoreEntry>::empty());
    assert(without_question(e, q.question_id) =~= Seq::<ScoreEntry>::empty());
    assert(log + Seq::<ScoreEntry>::empty() =~= log);
}

/// The score of the entry `i` places from the end of the log (0: the last).
pub open spec fn score_from_end(log: Seq<ScoreEntry>, i: int) -> int {
    log[log.len() - 1 - i].score as int
}

/// A wrong answer closes the question exactly when the three entries before
/// it carry the same penalty, so that the last four entries are the four
/// players' penalties; with fewer such entries the same question stays on
/// for the players who have not answered. A repeated wrong answer records
/// nothing and closes nothing.
pub proof fn lemma_question_closes_after_four_wrong(log: Seq<ScoreEntry>, q: QuestionRef, player: i64, price: i32)
    ensures
        ({
            let plan = incorrect_answer_plan(log, q, player, price);
            &&& plan.0 matches Some(e) ==> (plan.1 == AfterAnswer::QuestionOver <==> (log.len() >= 3
                && score_from_end(log, 0) == e.score && score_from_end(log, 1) == e.score && score_from_end(log, 2)
                == e.score))
            &&& plan.0 is None ==> plan.1 == AfterAnswer::SameQuestion
        }),
{
    let plan = incorrect_answer_plan(log, q, player, price);
    if plan.0 is Some {
        let e = plan.0.unwrap();
        let ext = log.push(e);
        let n = log.len() as int;
        assert(ext[n] == e);
        if n >= 3 {
            assert(ext[n - 1] == log[n - 1]);
            assert(ext[n - 2] == log[n - 2]);
            assert(ext[n - 3] == log[n - 3]);
        }
    }
}

/// Cancelling withdraws only the last entry exactly when that entry is a
/// penalty and one of the last four entries (all of them, in a shorter log)
/// is not; otherwise the whole last question is played again.
pub proof fn lemma_cancel_withdraws_a_lone_penalty(log: Seq<ScoreEntry>)
    ensures
        cancellation(log) == Cancellation::DeleteLastEntry <==> (log.len() > 0 && score_from_end(log, 0) < 0
            && exists|i: int| 0 <= i < 4 && i < log.len() && #[trigger] score_from_end(log, i) >= 0),
        cancellation(log) == Cancellation::UndoLastQuestion <==> (log.len() == 0 || score_from_end(log, 0) >= 0
            || forall|i: int| 0 <= i < 4 && i < log.len() ==> #[trigger] score_from_end(log, i) < 0),
{
    let ls = last_scores(log);
    assert forall|i: int| 0 <= i < 4 && i < log.len() implies #[trigger] score_from_end(log, i) == ls[i] by {}
    if all_negative(ls) {
        assert forall|i: int| 0 <= i < 4 && i < log.len() implies #[trigger] score_from_end(log, i) < 0 by {
            assert(ls[i] < 0);
        }
    } else {
        let k = choose|k: int| 0 <= k < ls.len() && !(#[trigger] ls[k] < 0);
        assert(score_from_end(log, k) >= 0);
        if log.len() > 0 && log.last().score < 0 {
            assert(score_from_end(log, 0) == log.last().score);
        }
    }
    if log.len() > 0 {
        assert(score_from_end(log, 0) == log.last().score);
    }
}

/// Cancelling right after a wrong answer that did not close the question
/// withdraws exactly that answer: the log goes back to what it was.
pub proof fn lemma_cancel_undoes_wrong_answer(log: Seq<ScoreEntry>, q: QuestionRef, player: i64, price: i32)
    requires
        price > 0,
        incorrect_answer_plan(log, q, player, price).0 is Some,
        !all_negative(last_scores(log.push(incorrect_answer_plan(log, q, player, price).0.unwrap()))),
    ensures
        ({
            let after = log.push(incorrect_answer_plan(log, q, player, price).0.unwrap());
            cancellation(after) == Cancellation::DeleteLastEntry && after.drop_last() == log
        }),
{
    let e = incorrect_answer_plan(log, q, player, price).0.unwrap();
    let after = log.push(e);
    assert(after.last() == e);
    assert(after.drop_last() =~= log);
}

/// Marking the same correct answer twice (a reloaded page) scores it once:
/// after the first marking the second adds nothing.
pub proof fn lemma_correct_answer_scored_once(log: Seq<ScoreEntry>, four: Foursome, q: QuestionRef, player: i64, price: i32)
    requires
        four.contains(player),
        correct_answer_plan(log, four, q, player, price).1,
    ensures
        correct_answer_plan(log + correct_answer_plan(log, four, q, player, price).0, four, q, player, price)
            == (Seq::<ScoreEntry>::empty(), false),
{
    let entries = correct_answer_entries(four, q, player, price);
    let after = log + entries;
    let k: int = if four.p1 == player {
        0
    } else if four.p2 == player {
        1
    } else if four.p3 == player {
        2
    } else {
        3
    };
    assert(after[log.len() + k] == entries[k]);
    assert(records_answer(after[log.len() + k], q, player, price as int));
    assert(seq![] =~= Seq::<ScoreEntry>::empty());
}

/// Marking the same wrong answer twice takes the points once.
pub proof fn lemma_wrong_answer_penalised_once(log: Seq<ScoreEntry>, q: QuestionRef, player: i64, price: i32)
    requires
        price > 0,
        incorrect_answer_plan(log, q, player, price).0 is Some,
    ensures
        incorrect_answer_plan(log.push(incorrect_answer_plan(log, q, player, price).0.unwrap()), q, player, price)
            == (None::<ScoreEntry>, AfterAnswer::SameQuestion),
{
    let e = incorrect_answer_plan(log, q, player, price).0.unwrap();
    let after = log.push(e);
    assert(after[log.len() as int] == e);
    assert(records_answer(after[log.len() as int], q, player, (-price) as i32 as int));
}

/// Marking "nobody knows" twice records the zeros once: after the four
/// zeros are recorded, a second marking adds nothing.
pub proof fn lemma_dont_know_marked_once(log: Seq<ScoreEntry>, four: Foursome, q: QuestionRef)
    requires
        dont_know_entries(log, foursome_seq(four), q).1,
    ensures
        dont_know_entries(log + dont_know_entries(log, foursome_seq(four), q).0, foursome_seq(four), q) == (
            Seq::<ScoreEntry>::empty(),
            false,
        ),
{
    let players = foursome_seq(four);
    let r = dont_know_entries(log, players, q);
    assert(players[0] == four.p1);
    assert(answer_unique(log, q, four.p1, 0));
    let rest = dont_know_entries(log.push(entry(q, four.p1, 0)), players.drop_first(), q);
    assert(r.0 == seq![entry(q, four.p1, 0)] + rest.0);
    let after = log + r.0;
    assert(after[log.len() as int] == entry(q, four.p1, 0));
    assert(records_answer(after[log.len() as int], q, four.p1, 0));
    assert(!answer_unique(after, q, players[0], 0));
    assert(seq![] =~= Seq::<ScoreEntry>::empty());
}

} // verus!
