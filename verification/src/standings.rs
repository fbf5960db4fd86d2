//! Standings of a game: per-player results, the finalists, the winner and
//! the players' lifetime statistics.

use vstd::prelude::*;
use crate::scoring::{
    ScoreEntry, QuestionRef, correct_answer_plan, dont_know_entries, entry, foursome_seq, incorrect_answer_plan,
};
use crate::schedule::{Foursome, shuffle_ids};
use crate::text::{decimal, push_decimal};
use vstd::string::*;

verus! {

/// Lifetime statistics of a player.
#[derive(Clone, Copy, PartialEq, Eq, Debug)]
pub struct PlayerStatistic {
    pub player_play_games: i64,
    pub player_win_games: i64,
    pub player_correct_answer: i64,
    pub player_incorrect_answer: i64,
    pub player_total_score: i64,
}

/// Result of one player in a finished game.
#[derive(Clone, Copy, PartialEq, Eq, Debug)]
pub struct PlayerResultGame {
    pub player_id: i64,
    pub positive_count: i32,
    pub negative_count: i32,
    pub sum_score: i32,
}

/// Logs longer than this are not handled (a game logs at most a few
/// thousand entries); the bound keeps every sum of scores within `i64`.
pub const MAX_LOG_ENTRIES: usize = 0x1000_0000;

/// Whether entry `e` counts for `player` in `tour` (`tour == 0`: any tour).
pub open spec fn counts_for(e: ScoreEntry, player: i64, tour: int) -> bool {
    e.player_id == player && (tour == 0 || e.tour == tour)
}

/// The sum of the scores of `player` in `tour` (`tour == 0`: all tours).
pub open spec fn score_sum(log: Seq<ScoreEntry>, player: i64, tour: int) -> int
    decreases log.len(),
{
    if log.len() == 0 {
        0
    } else {
        score_sum(log.drop_last(), player, tour) + if counts_for(log.last(), player, tour) {
            log.last().score as int
        } else {
            0
        }
    }
}

/// Entries of `player` that score more than zero (`sign > 0`) or less
/// than zero (`sign < 0`).
pub open spec fn sign_count(log: Seq<ScoreEntry>, player: i64, sign: int) -> nat
    decreases log.len(),
{
    if log.len() == 0 {
        0
    } else {
        sign_count(log.drop_last(), player, sign) + if log.last().player_id == player && ((sign > 0
            && log.last().score > 0) || (sign < 0 && log.last().score < 0)) {
            1nat
        } else {
            0nat
        }
    }
}

/// What entry `e` adds to the score of `player` in `tour`.
pub open spec fn contribution(e: ScoreEntry, player: i64, tour: int) -> int {
    if counts_for(e, player, tour) {
        e.score as int
    } else {
        0
    }
}

proof fn lemma_score_sum_append(a: Seq<ScoreEntry>, b: Seq<ScoreEntry>, player: i64, tour: int)
    ensures
        score_sum(a + b, player, tour) == score_sum(a, player, tour) + score_sum(b, player, tour),
    decreases b.len(),
{
    if b.len() == 0 {
        assert(a + b =~= a);
    } else {
        assert((a + b).drop_last() =~= a + b.drop_last());
        assert((a + b).last() == b.last());
        lemma_score_sum_append(a, b.drop_last(), player, tour);
    }
}

proof fn lemma_score_sum_one(e: ScoreEntry, player: i64, tour: int)
    ensures
        score_sum(seq![e], player, tour) == contribution(e, player, tour),
{
    let s = seq![e];
    assert(s.drop_last() =~= Seq::<ScoreEntry>::empty());
    assert(s.last() == e);
    assert(score_sum(s.drop_last(), player, tour) == 0);
}

proof fn lemma_score_sum_four(a: ScoreEntry, b: ScoreEntry, c: ScoreEntry, d: ScoreEntry, player: i64, tour: int)
    ensures
        score_sum(seq![a, b, c, d], player, tour) == contribution(a, player, tour) + contribution(b, player, tour)
            + contribution(c, player, tour) + contribution(d, player, tour),
{
    lemma_score_sum_one(a, player, tour);
    lemma_score_sum_one(b, player, tour);
    lemma_score_sum_one(c, player, tour);
    lemma_score_sum_one(d, player, tour);
    lemma_score_sum_append(seq![a], seq![b], player, tour);
    assert(seq![a] + seq![b] =~= seq![a, b]);
    lemma_score_sum_append(seq![a, b], seq![c], player, tour);
    assert(seq![a, b] + seq![c] =~= seq![a, b, c]);
    lemma_score_sum_append(seq![a, b, c], seq![d], player, tour);
    assert(seq![a, b, c] + seq![d] =~= seq![a, b, c, d]);
}

/// What a marked answer worth `score` to `answering` on question `q` gives
/// `player` in `tour` (`tour == 0`: in all).
pub open spec fn gained(q: QuestionRef, answering: i64, score: int, player: i64, tour: int) -> int {
    if player == answering && (tour == 0 || tour == q.tour) {
        score
    } else {
        0
    }
}

/// The four players of a round are four different people.
pub open spec fn four_different(f: Foursome) -> bool {
    &&& f.p1 != f.p2 && f.p1 != f.p3 && f.p1 != f.p4
    &&& f.p2 != f.p3 && f.p2 != f.p4
    &&& f.p3 != f.p4
}

/// A correct answer gives the player who answered the price of the
/// question, in the question's tour and in all, and the other players
/// nothing; marked a second time it changes no score.
pub proof fn lemma_correct_answer_adds_price(
    log: Seq<ScoreEntry>,
    four: Foursome,
    q: QuestionRef,
    answering: i64,
    price: i32,
    player: i64,
    tour: int,
)
    requires
        four_different(four),
        four.contains(answering),
    ensures
        ({
            let plan = correct_answer_plan(log, four, q, answering, price);
            score_sum(log + plan.0, player, tour) == score_sum(log, player, tour) + if plan.1 {
                gained(q, answering, price as int, player, tour)
            } else {
                0
            }
        }),
{
    let plan = correct_answer_plan(log, four, q, answering, price);
    lemma_score_sum_append(log, plan.0, player, tour);
    if plan.1 {
        let s1: i32 = if four.p1 == answering { price } else { 0 };
        let s2: i32 = if four.p2 == answering { price } else { 0 };
        let s3: i32 = if four.p3 == answering { price } else { 0 };
        let s4: i32 = if four.p4 == answering { price } else { 0 };
        lemma_score_sum_four(entry(q, four.p1, s1), entry(q, four.p2, s2), entry(q, four.p3, s3), entry(q, four.p4, s4), player, tour);
    } else {
        assert(plan.0 =~= Seq::<ScoreEntry>::empty());
        assert(score_sum(plan.0, player, tour) == 0);
    }
}

/// A wrong answer takes the price of the question from the player who gave
/// it, in the question's tour and in all, and from nobody else; marked a
/// second time it changes no score.
pub proof fn lemma_wrong_answer_takes_price(log: Seq<ScoreEntry>, q: QuestionRef, answering: i64, price: i32, player: i64, tour: int)
    requires
        price != i32::MIN,
    ensures
        ({
            let plan = incorrect_answer_plan(log, q, answering, price);
            let after = match plan.0 {
                Some(e) => log.push(e),
                None => log,
            };
            score_sum(after, player, tour) == score_sum(log, player, tour) - if plan.0 is Some {
                gained(q, answering, price as int, player, tour)
            } else {
                0
            }
        }),
{
    let plan = incorrect_answer_plan(log, q, answering, price);
    if plan.0 is Some {
        let e = plan.0.unwrap();
        assert(e == entry(q, answering, (-price) as i32));
        assert(((-price) as i32) as int == -(price as int));
        assert(log.push(e).drop_last() =~= log);
    }
}

proof fn lemma_dont_know_scores_nothing(log: Seq<ScoreEntry>, players: Seq<i64>, q: QuestionRef, player: i64, tour: int)
    ensures
        score_sum(dont_know_entries(log, players, q).0, player, tour) == 0,
    decreases players.len(),
{
    if players.len() > 0 && crate::scoring::answer_unique(log, q, players[0], 0) {
        let first = entry(q, players[0], 0);
        let rest = dont_know_entries(log.push(first), players.drop_first(), q);
        lemma_dont_know_scores_nothing(log.push(first), players.drop_first(), q, player, tour);
        lemma_score_sum_one(first, player, tour);
        lemma_score_sum_append(seq![first], rest.0, player, tour);
    } else {
        assert(dont_know_entries(log, players, q).0 =~= Seq::<ScoreEntry>::empty());
        assert(score_sum(Seq::<ScoreEntry>::empty(), player, tour) == 0);
    }
}

/// "Nobody knows the answer" changes no player's score.
pub proof fn lemma_dont_know_keeps_scores(log: Seq<ScoreEntry>, four: Foursome, q: QuestionRef, player: i64, tour: int)
    ensures
        score_sum(log + dont_know_entries(log, foursome_seq(four), q).0, player, tour) == score_sum(log, player, tour),
{
    lemma_dont_know_scores_nothing(log, foursome_seq(four), q, player, tour);
    lemma_score_sum_append(log, dont_know_entries(log, foursome_seq(four), q).0, player, tour);
}

proof fn lemma_score_sum_bound(log: Seq<ScoreEntry>, player: i64, tour: int)
    ensures
        -(log.len() as int) * 0x8000_0000 <= score_sum(log, player, tour) <= (log.len() as int) * 0x8000_0000,
    decreases log.len(),
{
    if log.len() > 0 {
        lemma_score_sum_bound(log.drop_last(), player, tour);
    }
}

proof fn lemma_sign_count_bound(log: Seq<ScoreEntry>, player: i64, sign: int)
    ensures
        sign_count(log, player, sign) <= log.len(),
    decreases log.len(),
{
    if log.len() > 0 {
        lemma_sign_count_bound(log.drop_last(), player, sign);
    }
}

fn score_sum_exec(log: &Vec<ScoreEntry>, player: i64, tour: i8) -> (s: i64)
    requires
        log@.len() <= MAX_LOG_ENTRIES,
    ensures
        s == score_sum(log@, player, tour as int),
{
    let mut s: i64 = 0;
    let mut i: usize = 0;
    while i < log.len()
        invariant
            i <= log@.len(),
            log@.len() <= MAX_LOG_ENTRIES,
            s == score_sum(log@.take(i as int), player, tour as int),
        decreases log.len() - i,
    {
        assert(log@.take(i + 1).drop_last() =~= log@.take(i as int));
        proof {
            lemma_score_sum_bound(log@.take(i as int), player, tour as int);
        }
        let e = log[i];
        if e.player_id == player && (tour == 0 || e.tour == tour) {
            s = s + e.score as i64;
        }
        i = i + 1;
    }
    assert(log@.take(log@.len() as int) =~= log@);
    s
}

fn sign_count_exec(log: &Vec<ScoreEntry>, player: i64, positive: bool) -> (n: u64)
    requires
        log@.len() <= MAX_LOG_ENTRIES,
    ensures
        n == sign_count(log@, player, if positive {
            1
        } else {
            -1
        }),
{
    let ghost sign: int = if positive {
        1
    } else {
        -1
    };
    let mut n: u64 = 0;
    let mut i: usize = 0;
    while i < log.len()
        invariant
            i <= log@.len(),
            log@.len() <= MAX_LOG_ENTRIES,
            sign == (if positive {
                1int
            } else {
                -1int
            }),
            n == sign_count(log@.take(i as int), player, sign),
        decreases log.len() - i,
    {
        assert(log@.take(i + 1).drop_last() =~= log@.take(i as int));
        proof {
            lemma_sign_count_bound(log@.take(i as int), player, sign);
        }
        let e = log[i];
        if e.player_id == player && ((positive && e.score > 0) || (!positive && e.score < 0)) {
            n = n + 1;
        }
        i = i + 1;
    }
    assert(log@.take(log@.len() as int) =~= log@);
    n
}

/// A count or a sum as the database hands it back in an `i32`: a value
/// out of range reads as 0.
pub open spec fn as_i32_or_zero(v: int) -> int {
    if i32::MIN <= v <= i32::MAX {
        v
    } else {
        0
    }
}

/// The result of one player in a finished game: right answers, wrong
/// answers and the sum of the player's scores.
pub open spec fn player_result(log: Seq<ScoreEntry>, player: i64) -> PlayerResultGame {
    PlayerResultGame {
        player_id: player,
        positive_count: as_i32_or_zero(sign_count(log, player, 1) as int) as i32,
        negative_count: as_i32_or_zero(sign_count(log, player, -1) as int) as i32,
        sum_score: as_i32_or_zero(score_sum(log, player, 0)) as i32,
    }
}

fn to_i32_or_zero(v: i64) -> (r: i32)
    ensures
        r == as_i32_or_zero(v as int),
{
    if i32::MIN as i64 <= v && v <= i32::MAX as i64 {
        v as i32
    } else {
        0
    }
}

/// The results sent to the players of a finished game: one for each
/// player row of the registration, in its order.
pub fn getting_game_results(players: &Vec<i64>, log: &Vec<ScoreEntry>) -> (results: Vec<PlayerResultGame>)
    requires
        log@.len() <= MAX_LOG_ENTRIES,
    ensures
        results@.len() == players@.len(),
        forall|k: int| 0 <= k < players@.len() ==> #[trigger] results@[k] == player_result(log@, players@[k]),
{
    let mut results: Vec<PlayerResultGame> = Vec::new();
    let mut i: usize = 0;
    while i < players.len()
        invariant
            i <= players@.len(),
            log@.len() <= MAX_LOG_ENTRIES,
            results@.len() == i,
            forall|k: int| 0 <= k < i ==> #[trigger] results@[k] == player_result(log@, players@[k]),
        decreases players.len() - i,
    {
        let id = players[i];
        let positive = sign_count_exec(log, id, true);
        let negative = sign_count_exec(log, id, false);
        let sum = score_sum_exec(log, id, 0);
        proof {
            lemma_sign_count_bound(log@, id, 1);
            lemma_sign_count_bound(log@, id, -1);
        }
        results.push(
            PlayerResultGame {
                player_id: id,
                positive_count: to_i32_or_zero(positive as i64),
                negative_count: to_i32_or_zero(negative as i64),
                sum_score: to_i32_or_zero(sum),
            },
        );
        i = i + 1;
    }
    results
}

/// The players of `log` in the order of their first entry.
pub open spec fn players_of(log: Seq<ScoreEntry>) -> Seq<i64>
    decreases log.len(),
{
    if log.len() == 0 {
        seq![]
    } else {
        let r = players_of(log.drop_last());
        if r.contains(log.last().player_id) {
            r
        } else {
            r.push(log.last().player_id)
        }
    }
}

/// The entries of `log` that score (positively or negatively).
pub open spec fn scoring_entries(log: Seq<ScoreEntry>) -> Seq<ScoreEntry>
    decreases log.len(),
{
    if log.len() == 0 {
        seq![]
    } else if log.last().score != 0 {
        scoring_entries(log.drop_last()).push(log.last())
    } else {
        scoring_entries(log.drop_last())
    }
}

fn players_exec(log: &Vec<ScoreEntry>, scoring_only: bool) -> (ids: Vec<i64>)
    ensures
        ids@ == players_of(if scoring_only {
            scoring_entries(log@)
        } else {
            log@
        }),
{
    let mut ids: Vec<i64> = Vec::new();
    let mut i: usize = 0;
    while i < log.len()
        invariant
            i <= log@.len(),
            ids@ == players_of(if scoring_only {
                scoring_entries(log@.take(i as int))
            } else {
                log@.take(i as int)
            }),
        decreases log.len() - i,
    {
        let ghost prefix = log@.take(i as int);
        assert(log@.take(i + 1).drop_last() =~= prefix);
        let e = log[i];
        proof {
            let next = log@.take(i + 1);
            assert(next.last() == e);
            if scoring_only && e.score != 0 {
                assert(scoring_entries(next) == scoring_entries(prefix).push(e));
                assert(scoring_entries(prefix).push(e).drop_last() =~= scoring_entries(prefix));
            }
        }
        if !scoring_only || e.score != 0 {
            let mut found = false;
            let mut j: usize = 0;
            while j < ids.len()
                invariant
                    j <= ids@.len(),
                    found == exists|k: int| 0 <= k < j && ids@[k] == e.player_id,
                decreases ids.len() - j,
            {
                if ids[j] == e.player_id {
                    found = true;
                }
                j = j + 1;
            }
            if !found {
                ids.push(e.player_id);
            }
        }
        i = i + 1;
    }
    assert(log@.take(log@.len() as int) =~= log@);
    ids
}

/// The scores of one player in a game, tour by tour (the fourth tour is
/// the final), and in all.
#[derive(Clone, Copy, PartialEq, Eq, Debug)]
pub struct PlayerTotals {
    pub player_id: i64,
    pub score_tour_1: i64,
    pub score_tour_2: i64,
    pub score_tour_3: i64,
    pub final_tour: i64,
    pub total_score: i64,
}

pub open spec fn totals_of(log: Seq<ScoreEntry>, player: i64) -> PlayerTotals {
    PlayerTotals {
        player_id: player,
        score_tour_1: score_sum(log, player, 1) as i64,
        score_tour_2: score_sum(log, player, 2) as i64,
        score_tour_3: score_sum(log, player, 3) as i64,
        final_tour: score_sum(log, player, 4) as i64,
        total_score: score_sum(log, player, 0) as i64,
    }
}

/// The scores of every player of a game, in the order of their first
/// entry.
pub fn player_totals(log: &Vec<ScoreEntry>) -> (totals: Vec<PlayerTotals>)
    requires
        log@.len() <= MAX_LOG_ENTRIES,
    ensures
        totals@.len() == players_of(log@).len(),
        forall|k: int|
            0 <= k < totals@.len() ==> #[trigger] totals@[k] == totals_of(log@, players_of(log@)[k]),
{
    let ids = players_exec(log, false);
    let mut totals: Vec<PlayerTotals> = Vec::new();
    let mut i: usize = 0;
    while i < ids.len()
        invariant
            ids@ == players_of(log@),
            log@.len() <= MAX_LOG_ENTRIES,
            i <= ids@.len(),
            totals@.len() == i,
            forall|k: int| 0 <= k < i ==> #[trigger] totals@[k] == totals_of(log@, players_of(log@)[k]),
        decreases ids.len() - i,
    {
        let p = ids[i];
        let t = PlayerTotals {
            player_id: p,
            score_tour_1: score_sum_exec(log, p, 1),
            score_tour_2: score_sum_exec(log, p, 2),
            score_tour_3: score_sum_exec(log, p, 3),
            final_tour: score_sum_exec(log, p, 4),
            total_score: score_sum_exec(log, p, 0),
        };
        totals.push(t);
        i = i + 1;
    }
    totals
}

/// `a` ranks at least as high as `b`: by the total, then by the third,
/// second and first tour.
pub open spec fn ranks_at_least(a: PlayerTotals, b: PlayerTotals) -> bool {
    a.total_score > b.total_score || (a.total_score == b.total_score && (a.score_tour_3 > b.score_tour_3 || (
    a.score_tour_3 == b.score_tour_3 && (a.score_tour_2 > b.score_tour_2 || (a.score_tour_2 == b.score_tour_2
        && a.score_tour_1 >= b.score_tour_1)))))
}

fn ranks_at_least_exec(a: &PlayerTotals, b: &PlayerTotals) -> (r: bool)
    ensures
        r == ranks_at_least(*a, *b),
{
    a.total_score > b.total_score || (a.total_score == b.total_score && (a.score_tour_3 > b.score_tour_3 || (
    a.score_tour_3 == b.score_tour_3 && (a.score_tour_2 > b.score_tour_2 || (a.score_tour_2 == b.score_tour_2
        && a.score_tour_1 >= b.score_tour_1)))))
}

/// `picked` are the positions in `totals` of the best ranked players: as
/// many as there are players, up to four, none twice, each ranked at least
/// as high as every player not picked.
pub open spec fn is_top(totals: Seq<PlayerTotals>, picked: Seq<usize>) -> bool {
    &&& picked.len() == if totals.len() < 4 {
        totals.len()
    } else {
        4
    }
    &&& forall|i: int| 0 <= i < picked.len() ==> #[trigger] picked[i] < totals.len()
    &&& forall|i: int, j: int| 0 <= i < j < picked.len() ==> picked[i] != picked[j]
    &&& forall|i: int, k: int|
        0 <= i < picked.len() && 0 <= k < totals.len() && !picked.contains(k as usize) ==> #[trigger] ranks_at_least(
            totals[picked[i] as int],
            totals[k],
        )
}

/// The positions of the (up to) four best ranked players of a game.
pub fn top_four(totals: &Vec<PlayerTotals>) -> (picked: Vec<usize>)
    ensures
        is_top(totals@, picked@),
        forall|i: int, k: int|
            0 <= i < picked@.len() && 0 <= k < totals@.len() && !picked@.contains(k as usize) ==> (
            #[trigger] totals@[picked@[i] as int]).total_score >= (#[trigger] totals@[k]).total_score,
{
    let n = totals.len();
    let m: usize = if n < 4 {
        n
    } else {
        4
    };
    let mut chosen: Vec<bool> = Vec::new();
    let mut c: usize = 0;
    while c < n
        invariant
            c <= n,
            chosen@.len() == c,
            forall|k: int| 0 <= k < c ==> !chosen@[k],
        decreases n - c,
    {
        chosen.push(false);
        c = c + 1;
    }
    proof {
        assert(chosen@ =~= Seq::new(n as nat, |k: int| false));
        lemma_count_true_none(n as nat);
    }
    let mut picked: Vec<usize> = Vec::new();
    let mut r: usize = 0;
    while r < m
        invariant
            n == totals@.len(),
            m == (if n < 4 {
                n
            } else {
                4
            }),
            r <= m,
            picked@.len() == r,
            chosen@.len() == n,
            forall|k: int| 0 <= k < n ==> (chosen@[k] <==> picked@.contains(k as usize)),
            count_true(chosen@) == r,
            forall|i: int| 0 <= i < r ==> #[trigger] picked@[i] < n,
            forall|i: int, j: int| 0 <= i < j < r ==> picked@[i] != picked@[j],
            forall|i: int, k: int|
                0 <= i < r && 0 <= k < n && !chosen@[k] ==> #[trigger] ranks_at_least(
                    totals@[picked@[i] as int],
                    totals@[k],
                ),
        decreases m - r,
    {
        // fewer than n positions are taken, so one is free
        assert(exists|k: int| 0 <= k < n && !chosen@[k]) by {
            if forall|k: int| 0 <= k < n ==> chosen@[k] {
                lemma_count_true_all(chosen@);
            }
        }
        let mut best: usize = n;
        let mut j: usize = 0;
        while j < n
            invariant
                n == totals@.len(),
                chosen@.len() == n,
                j <= n,
                best == n || (best < n && !chosen@[best as int]),
                best == n ==> forall|k: int| 0 <= k < j ==> chosen@[k],
                best < n ==> forall|k: int|
                    0 <= k < j && !chosen@[k] ==> ranks_at_least(totals@[best as int], #[trigger] totals@[k]),
            decreases n - j,
        {
            if !chosen[j] {
                if best == n || !ranks_at_least_exec(&totals[best], &totals[j]) {
                    best = j;
                }
            }
            j = j + 1;
        }
        assert(best < n);
        let ghost old_picked = picked@;
        let ghost old_chosen = chosen@;
        proof {
            lemma_count_true_set(chosen@, best as int);
        }
        picked.push(best);
        chosen.set(best, true);
        assert forall|k: int| 0 <= k < n implies (chosen@[k] <==> picked@.contains(k as usize)) by {
            if k == best as int {
                assert(picked@[r as int] == best);
            } else {
                assert(chosen@[k] == old_chosen[k]);
                if old_picked.contains(k as usize) {
                    let i = choose|i: int| 0 <= i < old_picked.len() && old_picked[i] == k as usize;
                    assert(picked@[i] == k as usize);
                }
                if picked@.contains(k as usize) {
                    let i = choose|i: int| 0 <= i < picked@.len() && picked@[i] == k as usize;
                    assert(i < r);
                    assert(old_picked[i] == k as usize);
                }
            }
        }
        assert forall|i: int, j2: int| 0 <= i < j2 < r + 1 implies picked@[i] != picked@[j2] by {
            if j2 == r {
                assert(old_chosen[old_picked[i] as int]);
            }
        }
        r = r + 1;
    }
    proof {
        assert forall|i: int, k: int|
            0 <= i < picked@.len() && 0 <= k < totals@.len() && !picked@.contains(k as usize) implies #[trigger] ranks_at_least(
            totals@[picked@[i] as int],
            totals@[k],
        ) by {
            assert(!chosen@[k]);
        }
        lemma_finalists_by_total(totals@, picked@);
    }
    picked
}

spec fn count_true(s: Seq<bool>) -> nat
    decreases s.len(),
{
    if s.len() == 0 {
        0
    } else {
        count_true(s.drop_last()) + if s.last() {
            1nat
        } else {
            0nat
        }
    }
}

proof fn lemma_count_true_all(s: Seq<bool>)
    requires
        forall|k: int| 0 <= k < s.len() ==> s[k],
    ensures
        count_true(s) == s.len(),
    decreases s.len(),
{
    if s.len() > 0 {
        assert forall|k: int| 0 <= k < s.drop_last().len() implies s.drop_last()[k] by {
            assert(s[k]);
        }
        lemma_count_true_all(s.drop_last());
    }
}

proof fn lemma_count_true_none(n: nat)
    ensures
        count_true(Seq::new(n, |k: int| false)) == 0,
    decreases n,
{
    if n > 0 {
        assert(Seq::new(n, |k: int| false).drop_last() =~= Seq::new((n - 1) as nat, |k: int| false));
        lemma_count_true_none((n - 1) as nat);
    }
}

proof fn lemma_count_true_set(s: Seq<bool>, i: int)
    requires
        0 <= i < s.len(),
        !s[i],
    ensures
        count_true(s.update(i, true)) == count_true(s) + 1,
    decreases s.len(),
{
    let t = s.update(i, true);
    if i == s.len() - 1 {
        assert(t.drop_last() =~= s.drop_last());
    } else {
        assert(t.drop_last() =~= s.drop_last().update(i, true));
        lemma_count_true_set(s.drop_last(), i);
    }
}

/// The ids of the players at `picked`.
pub open spec fn ids_at(totals: Seq<PlayerTotals>, picked: Seq<usize>) -> Seq<i64> {
    Seq::new(picked.len(), |i: int| totals[picked[i] as int].player_id)
}

/// The finalists of a game: the ids of its (up to) four best ranked
/// players.
pub fn finalists(totals: &Vec<PlayerTotals>) -> (ids: Vec<i64>)
    ensures
        exists|picked: Seq<usize>| #[trigger] is_top(totals@, picked) && ids@ == ids_at(totals@, picked),
{
    let picked = top_four(totals);
    let mut ids: Vec<i64> = Vec::new();
    let mut i: usize = 0;
    while i < picked.len()
        invariant
            is_top(totals@, picked@),
            i <= picked@.len(),
            ids@ == ids_at(totals@, picked@).take(i as int),
        decreases picked.len() - i,
    {
        ids.push(totals[picked[i]].player_id);
        i = i + 1;
        assert(ids@ =~= ids_at(totals@, picked@).take(i as int));
    }
    assert(ids@ =~= ids_at(totals@, picked@));
    ids
}

/// `ids` padded with zeros to four entries.
pub open spec fn padded(ids: Seq<i64>) -> Seq<i64> {
    Seq::new(4, |k: int| if k < ids.len() {
        ids[k]
    } else {
        0i64
    })
}

/// Seats the finalists once the last question of the third tour is
/// played (the highest played schema row is row 240): the finalists in a
/// random order, a missing one as 0. At any other moment nobody is seated.
pub fn formation_finalists_players(max_id: i32, finalist_ids: Vec<i64>) -> (seated: Option<Foursome>)
    requires
        finalist_ids@.len() <= 4,
    ensures
        max_id != 240 ==> seated is None,
        max_id == 240 ==> (seated matches Some(f) && seq![f.p1, f.p2, f.p3, f.p4].to_multiset() == padded(
            finalist_ids@,
        ).to_multiset()),
{
    if max_id != 240 {
        return None;
    }
    let mut ids = finalist_ids;
    while ids.len() < 4
        invariant
            ids@.len() <= 4,
            ids@ == finalist_ids@ + Seq::new((ids@.len() - finalist_ids@.len()) as nat, |k: int| 0i64),
            ids@.len() >= finalist_ids@.len(),
        decreases 4 - ids.len(),
    {
        ids.push(0);
        assert(ids@ =~= finalist_ids@ + Seq::new((ids@.len() - finalist_ids@.len()) as nat, |k: int| 0i64));
    }
    assert(ids@ =~= padded(finalist_ids@));
    let ghost before = ids@;
    shuffle_ids(&mut ids);
    let f = Foursome { p1: ids[0], p2: ids[1], p3: ids[2], p4: ids[3] };
    assert(seq![f.p1, f.p2, f.p3, f.p4] =~= ids@);
    Some(f)
}

/// The winner of a game: a player with the highest score in the final;
/// 0 when nobody has played.
pub fn winner(totals: &Vec<PlayerTotals>) -> (w: i64)
    ensures
        totals@.len() == 0 ==> w == 0,
        totals@.len() > 0 ==> exists|k: int|
            0 <= k < totals@.len() && w == totals@[k].player_id && forall|j: int|
                0 <= j < totals@.len() ==> totals@[k].final_tour >= #[trigger] totals@[j].final_tour,
{
    if totals.len() == 0 {
        return 0;
    }
    let mut best: usize = 0;
    let mut j: usize = 1;
    while j < totals.len()
        invariant
            1 <= j <= totals@.len(),
            best < totals@.len(),
            forall|k: int| 0 <= k < j ==> totals@[best as int].final_tour >= #[trigger] totals@[k].final_tour,
        decreases totals.len() - j,
    {
        if totals[j].final_tour > totals[best].final_tour {
            best = j;
        }
        j = j + 1;
    }
    totals[best].player_id
}

/// What one game adds to a player's statistics: the sum of the player's
/// scores and the numbers of right and wrong answers.
#[derive(Clone, Copy, PartialEq, Eq, Debug)]
pub struct GameStatistic {
    pub player_id: i64,
    pub total_score: i64,
    pub correct_answers: i64,
    pub incorrect_answers: i64,
}

/// The game's contribution for every player who scored (up or down) in
/// it, in the order of their first scoring entry.
pub fn game_statistics(log: &Vec<ScoreEntry>) -> (stats: Vec<GameStatistic>)
    requires
        log@.len() <= MAX_LOG_ENTRIES,
    ensures
        stats@.len() == players_of(scoring_entries(log@)).len(),
        forall|k: int|
            0 <= k < stats@.len() ==> {
                let p = players_of(scoring_entries(log@))[k];
                &&& (#[trigger] stats@[k]).player_id == p
                &&& stats@[k].total_score == score_sum(log@, p, 0)
                &&& stats@[k].correct_answers == sign_count(log@, p, 1)
                &&& stats@[k].incorrect_answers == sign_count(log@, p, -1)
            },
{
    let ids = players_exec(log, true);
    let mut stats: Vec<GameStatistic> = Vec::new();
    let mut i: usize = 0;
    while i < ids.len()
        invariant
            ids@ == players_of(scoring_entries(log@)),
            log@.len() <= MAX_LOG_ENTRIES,
            i <= ids@.len(),
            stats@.len() == i,
            forall|k: int|
                0 <= k < i ==> {
                    let p = players_of(scoring_entries(log@))[k];
                    &&& (#[trigger] stats@[k]).player_id == p
                    &&& stats@[k].total_score == score_sum(log@, p, 0)
                    &&& stats@[k].correct_answers == sign_count(log@, p, 1)
                    &&& stats@[k].incorrect_answers == sign_count(log@, p, -1)
                },
        decreases ids.len() - i,
    {
        let p = ids[i];
        let total = score_sum_exec(log, p, 0);
        let correct = sign_count_exec(log, p, true);
        let incorrect = sign_count_exec(log, p, false);
        proof {
            lemma_sign_count_bound(log@, p, 1);
            lemma_sign_count_bound(log@, p, -1);
        }
        stats.push(
            GameStatistic {
                player_id: p,
                total_score: total,
                correct_answers: correct as i64,
                incorrect_answers: incorrect as i64,
            },
        );
        i = i + 1;
    }
    stats
}

/// A player's statistics after a game: one more game played, the game's
/// right and wrong answers and scores added.
pub fn update_statistic_players(old: PlayerStatistic, game: GameStatistic) -> (new: PlayerStatistic)
    requires
        old.player_play_games < i64::MAX,
        i64::MIN <= old.player_correct_answer + game.correct_answers <= i64::MAX,
        i64::MIN <= old.player_incorrect_answer + game.incorrect_answers <= i64::MAX,
        i64::MIN <= old.player_total_score + game.total_score <= i64::MAX,
    ensures
        new.player_play_games == old.player_play_games + 1,
        new.player_win_games == old.player_win_games,
        new.player_correct_answer == old.player_correct_answer + game.correct_answers,
        new.player_incorrect_answer == old.player_incorrect_answer + game.incorrect_answers,
        new.player_total_score == old.player_total_score + game.total_score,
{
    PlayerStatistic {
        player_play_games: old.player_play_games + 1,
        player_win_games: old.player_win_games,
        player_correct_answer: old.player_correct_answer + game.correct_answers,
        player_incorrect_answer: old.player_incorrect_answer + game.incorrect_answers,
        player_total_score: old.player_total_score + game.total_score,
    }
}

/// A player's stored statistics, with the player's id.
#[derive(Clone, Copy, PartialEq, Eq, Debug)]
pub struct StoredStatistic {
    pub player_id: i64,
    pub statistic: PlayerStatistic,
}

/// Stored statistics leave room for one more game: counts below the
/// largest `i64`, sums within 2^62 either way.
pub open spec fn statistic_fits(s: PlayerStatistic) -> bool {
    &&& s.player_play_games < i64::MAX
    &&& s.player_win_games < i64::MAX
    &&& -0x4000_0000_0000_0000 <= s.player_correct_answer <= 0x4000_0000_0000_0000
    &&& -0x4000_0000_0000_0000 <= s.player_incorrect_answer <= 0x4000_0000_0000_0000
    &&& -0x4000_0000_0000_0000 <= s.player_total_score <= 0x4000_0000_0000_0000
}

/// `w` is the winner of the game whose log is `log`: a player with the
/// highest final-round score; 0 when nobody played.
pub open spec fn top_final(log: Seq<ScoreEntry>, w: i64) -> bool {
    let ps = players_of(log);
    if ps.len() == 0 {
        w == 0
    } else {
        &&& ps.contains(w)
        &&& forall|q: i64| #[trigger] ps.contains(q) ==> totals_of(log, w).final_tour >= totals_of(log, q).final_tour
    }
}

/// The statistics of player `p` (stored as `old`) after the game whose log
/// is `log` and whose winner is `w`: a player who scored in the game (up or
/// down) has one more game played, and the game's right and wrong answers
/// and scores added; the winner has one more game won; nothing else changes.
pub open spec fn statistic_after(log: Seq<ScoreEntry>, p: i64, old: PlayerStatistic, w: i64) -> PlayerStatistic {
    let scored = players_of(scoring_entries(log)).contains(p);
    PlayerStatistic {
        player_play_games: if scored {
            (old.player_play_games + 1) as i64
        } else {
            old.player_play_games
        },
        player_win_games: if p == w {
            (old.player_win_games + 1) as i64
        } else {
            old.player_win_games
        },
        player_correct_answer: if scored {
            (old.player_correct_answer + sign_count(log, p, 1)) as i64
        } else {
            old.player_correct_answer
        },
        player_incorrect_answer: if scored {
            (old.player_incorrect_answer + sign_count(log, p, -1)) as i64
        } else {
            old.player_incorrect_answer
        },
        player_total_score: if scored {
            (old.player_total_score + score_sum(log, p, 0)) as i64
        } else {
            old.player_total_score
        },
    }
}

proof fn lemma_game_sums_small(log: Seq<ScoreEntry>, p: i64)
    requires
        log.len() <= MAX_LOG_ENTRIES,
    ensures
        -0x1000_0000_0000_0000 <= score_sum(log, p, 0) <= 0x1000_0000_0000_0000,
        sign_count(log, p, 1) <= 0x1000_0000,
        sign_count(log, p, -1) <= 0x1000_0000,
{
    lemma_score_sum_bound(log, p, 0);
    lemma_sign_count_bound(log, p, 1);
    lemma_sign_count_bound(log, p, -1);
    let n = log.len() as int;
    assert(n * 0x8000_0000 <= 0x1000_0000_0000_0000) by (nonlinear_arith)
        requires
            0 <= n <= 0x1000_0000,
    ;
}

/// Applies a finished game to the players' stored statistics (`stored`,
/// the rows of the players table the game concerns): every player who
/// scored in the game gets the game's answers and scores and one more game
/// played, and the winner (a player with the highest final-round score)
/// one more game won.
pub fn apply_game_statistics(log: &Vec<ScoreEntry>, stored: &Vec<StoredStatistic>) -> (updated: Vec<
    StoredStatistic,
>)
    requires
        log@.len() <= MAX_LOG_ENTRIES,
        forall|k: int| 0 <= k < stored@.len() ==> statistic_fits(#[trigger] stored@[k].statistic),
    ensures
        updated@.len() == stored@.len(),
        exists|w: i64|
            #[trigger] top_final(log@, w) && forall|k: int|
                0 <= k < stored@.len() ==> (#[trigger] updated@[k]).player_id == stored@[k].player_id
                    && updated@[k].statistic == statistic_after(log@, stored@[k].player_id, stored@[k].statistic, w),
{
    let stats = game_statistics(log);
    let totals = player_totals(log);
    let w = winner(&totals);
    proof {
        let ps = players_of(log@);
        if ps.len() > 0 {
            let k = choose|k: int|
                0 <= k < totals@.len() && w == totals@[k].player_id && forall|j: int|
                    0 <= j < totals@.len() ==> totals@[k].final_tour >= #[trigger] totals@[j].final_tour;
            assert(totals@[k] == totals_of(log@, ps[k]));
            assert(ps[k] == w);
            assert forall|q: i64| #[trigger] ps.contains(q) implies totals_of(log@, w).final_tour >= totals_of(
                log@,
                q,
            ).final_tour by {
                let j = choose|j: int| 0 <= j < ps.len() && ps[j] == q;
                assert(totals@[j] == totals_of(log@, ps[j]));
                assert(totals@[k].final_tour >= totals@[j].final_tour);
            }
        }
        assert(top_final(log@, w));
    }
    let mut updated: Vec<StoredStatistic> = Vec::new();
    let mut i: usize = 0;
    while i < stored.len()
        invariant
            i <= stored@.len(),
            updated@.len() == i,
            log@.len() <= MAX_LOG_ENTRIES,
            forall|k: int| 0 <= k < stored@.len() ==> statistic_fits(#[trigger] stored@[k].statistic),
            stats@.len() == players_of(scoring_entries(log@)).len(),
            forall|k: int|
                0 <= k < stats@.len() ==> {
                    let p = players_of(scoring_entries(log@))[k];
                    &&& (#[trigger] stats@[k]).player_id == p
                    &&& stats@[k].total_score == score_sum(log@, p, 0)
                    &&& stats@[k].correct_answers == sign_count(log@, p, 1)
                    &&& stats@[k].incorrect_answers == sign_count(log@, p, -1)
                },
            forall|k: int|
                0 <= k < i ==> (#[trigger] updated@[k]).player_id == stored@[k].player_id
                    && updated@[k].statistic == statistic_after(log@, stored@[k].player_id, stored@[k].statistic, w),
        decreases stored.len() - i,
    {
        let row = stored[i];
        let p = row.player_id;
        let old = row.statistic;
        let mut j: usize = 0;
        let mut found: Option<GameStatistic> = None;
        while j < stats.len()
            invariant
                j <= stats@.len(),
                stats@.len() == players_of(scoring_entries(log@)).len(),
                forall|k: int| 0 <= k < stats@.len() ==> (#[trigger] stats@[k]).player_id == players_of(scoring_entries(log@))[k],
                found matches Some(g) ==> exists|k: int| 0 <= k < stats@.len() && stats@[k] == g && g.player_id == p,
                found is None ==> forall|k: int| 0 <= k < j ==> (#[trigger] stats@[k]).player_id != p,
            decreases stats.len() - j,
        {
            if found.is_none() && stats[j].player_id == p {
                found = Some(stats[j]);
            }
            j = j + 1;
        }
        proof {
            lemma_game_sums_small(log@, p);
            let ps = players_of(scoring_entries(log@));
            if found is None {
                assert(!ps.contains(p)) by {
                    if ps.contains(p) {
                        let k = choose|k: int| 0 <= k < ps.len() && ps[k] == p;
                        assert(stats@[k].player_id == p);
                    }
                }
            } else {
                let k = choose|k: int| 0 <= k < stats@.len() && stats@[k] == found->0 && found->0.player_id == p;
                assert(ps[k] == p);
                assert(ps.contains(p));
            }
        }
        let mut new = match found {
            Some(g) => update_statistic_players(old, g),
            None => old,
        };
        if p == w {
            new.player_win_games = new.player_win_games + 1;
        }
        updated.push(StoredStatistic { player_id: p, statistic: new });
        i = i + 1;
    }
    updated
}

/// What `/statistics` tells a player.
pub open spec fn statistic_text(s: PlayerStatistic) -> Seq<char> {
    "Вы сыграли "@ + decimal(s.player_play_games as int) + " игр,\nв которых правильно ответили на "@ + decimal(
        s.player_correct_answer as int,
    ) + " вопросов,\nне правильно ответили на "@ + decimal(s.player_incorrect_answer as int)
        + " вопросов.\nВы выиграли "@ + decimal(s.player_win_games as int) + " игр.\nВо всех играх Вы набрали "@
        + decimal(s.player_total_score as int) + " баллов."@
}

pub fn statistic(s: &PlayerStatistic) -> (t: String)
    ensures
        t@ == statistic_text(*s),
{
    let mut t = String::from_str("Вы сыграли ");
    push_decimal(&mut t, s.player_play_games);
    t.append(" игр,\nв которых правильно ответили на ");
    push_decimal(&mut t, s.player_correct_answer);
    t.append(" вопросов,\nне правильно ответили на ");
    push_decimal(&mut t, s.player_incorrect_answer);
    t.append(" вопросов.\nВы выиграли ");
    push_decimal(&mut t, s.player_win_games);
    t.append(" игр.\nВо всех играх Вы набрали ");
    push_decimal(&mut t, s.player_total_score);
    t.append(" баллов.");
    t
}

/// The message that tells a player their result in a finished game.
pub open spec fn result_text(r: PlayerResultGame) -> Seq<char> {
    "Ваш результат прошедшей игры:\nПравильные ответы: "@ + decimal(r.positive_count as int)
        + "\nНеправильные ответы: "@ + decimal(r.negative_count as int) + "\nСумма баллов: "@ + decimal(
        r.sum_score as int,
    )
}

pub fn sending_game_results(r: &PlayerResultGame) -> (t: String)
    ensures
        t@ == result_text(*r),
{
    let mut t = String::from_str("Ваш результат прошедшей игры:\nПравильные ответы: ");
    push_decimal(&mut t, r.positive_count as i64);
    t.append("\nНеправильные ответы: ");
    push_decimal(&mut t, r.negative_count as i64);
    t.append("\nСумма баллов: ");
    push_decimal(&mut t, r.sum_score as i64);
    t
}

/// The sum of the scores of `player` in round `round` of tour `tour`.
pub open spec fn round_score_sum(log: Seq<ScoreEntry>, player: i64, tour: int, round: int) -> int
    decreases log.len(),
{
    if log.len() == 0 {
        0
    } else {
        round_score_sum(log.drop_last(), player, tour, round) + if log.last().player_id == player
            && log.last().tour == tour && log.last().round == round {
            log.last().score as int
        } else {
            0
        }
    }
}

proof fn lemma_round_score_sum_bound(log: Seq<ScoreEntry>, player: i64, tour: int, round: int)
    ensures
        -(log.len() as int) * 0x8000_0000 <= round_score_sum(log, player, tour, round) <= (log.len() as int)
            * 0x8000_0000,
    decreases log.len(),
{
    if log.len() > 0 {
        lemma_round_score_sum_bound(log.drop_last(), player, tour, round);
    }
}

fn round_score_sum_exec(log: &Vec<ScoreEntry>, player: i64, tour: i8, round: i8) -> (s: i64)
    requires
        log@.len() <= MAX_LOG_ENTRIES,
    ensures
        s == round_score_sum(log@, player, tour as int, round as int),
{
    let mut s: i64 = 0;
    let mut i: usize = 0;
    while i < log.len()
        invariant
            i <= log@.len(),
            log@.len() <= MAX_LOG_ENTRIES,
            s == round_score_sum(log@.take(i as int), player, tour as int, round as int),
        decreases log.len() - i,
    {
        assert(log@.take(i + 1).drop_last() =~= log@.take(i as int));
        proof {
            lemma_round_score_sum_bound(log@.take(i as int), player, tour as int, round as int);
        }
        let e = log[i];
        if e.player_id == player && e.tour == tour && e.round == round {
            s = s + e.score as i64;
        }
        i = i + 1;
    }
    assert(log@.take(log@.len() as int) =~= log@);
    s
}

/// The names of a player.
pub struct PlayerNames {
    pub player_real_last_name: String,
    pub player_real_first_name: String,
    pub player_real_patronymic: String,
}

/// A player of the foursome on stage, with the player's score in the round.
pub struct PlayersGameData {
    pub id: i64,
    pub player_real_last_name: String,
    pub player_real_first_name: String,
    pub player_real_patronymic: String,
    pub game_id: i64,
    pub total_score: i64,
}

pub struct PlayersGameDataResponse {
    pub players: Vec<PlayersGameData>,
}

/// The scores of a foursome in round `round` of tour `tour`, for the
/// organiser's screen: the players in the foursome's order, each with
/// their names and the sum of their scores in the round.
pub fn players_round_scores(
    game_id: i64,
    players: Vec<(i64, PlayerNames)>,
    log: &Vec<ScoreEntry>,
    tour: i8,
    round: i8,
) -> (r: PlayersGameDataResponse)
    requires
        log@.len() <= MAX_LOG_ENTRIES,
    ensures
        r.players@.len() == players@.len(),
        forall|k: int|
            0 <= k < players@.len() ==> {
                let p = #[trigger] r.players@[k];
                &&& p.id == players@[k].0
                &&& p.game_id == game_id
                &&& p.player_real_last_name == players@[k].1.player_real_last_name
                &&& p.player_real_first_name == players@[k].1.player_real_first_name
                &&& p.player_real_patronymic == players@[k].1.player_real_patronymic
                &&& p.total_score == round_score_sum(log@, players@[k].0, tour as int, round as int)
            },
{
    let mut out: Vec<PlayersGameData> = Vec::new();
    let mut rest = players;
    let ghost all = rest@;
    let n = rest.len();
    // the players are taken from the back and put in order at the end
    let mut reversed: Vec<(i64, PlayerNames)> = Vec::new();
    while rest.len() > 0
        invariant
            all.len() == n,
            rest@.len() + reversed@.len() == n,
            rest@ == all.take(rest@.len() as int),
            forall|k: int| 0 <= k < reversed@.len() ==> #[trigger] reversed@[k] == all[n - 1 - k],
        decreases rest.len(),
    {
        let p = rest.pop().unwrap();
        reversed.push(p);
        assert(rest@ =~= all.take(rest@.len() as int));
    }
    while reversed.len() > 0
        invariant
            all.len() == n,
            log@.len() <= MAX_LOG_ENTRIES,
            out@.len() + reversed@.len() == n,
            forall|k: int| 0 <= k < reversed@.len() ==> #[trigger] reversed@[k] == all[n - 1 - k],
            forall|k: int|
                0 <= k < out@.len() ==> {
                    let p = #[trigger] out@[k];
                    &&& p.id == all[k].0
                    &&& p.game_id == game_id
                    &&& p.player_real_last_name == all[k].1.player_real_last_name
                    &&& p.player_real_first_name == all[k].1.player_real_first_name
                    &&& p.player_real_patronymic == all[k].1.player_real_patronymic
                    &&& p.total_score == round_score_sum(log@, all[k].0, tour as int, round as int)
                },
        decreases reversed.len(),
    {
        let ghost k = out@.len();
        let (id, names) = reversed.pop().unwrap();
        assert(all[k as int].0 == id);
        let score = round_score_sum_exec(log, id, tour, round);
        out.push(
            PlayersGameData {
                id,
                player_real_last_name: names.player_real_last_name,
                player_real_first_name: names.player_real_first_name,
                player_real_patronymic: names.player_real_patronymic,
                game_id,
                total_score: score,
            },
        );
    }
    PlayersGameDataResponse { players: out }
}

/// `a` comes no later than `b` in the table of a game's results, which
/// lists the players from the lowest score up: by the total, then the
/// final, the third, second and first tour.
pub open spec fn listed_before(a: PlayerTotals, b: PlayerTotals) -> bool {
    a.total_score < b.total_score || (a.total_score == b.total_score && (a.final_tour < b.final_tour || (
    a.final_tour == b.final_tour && (a.score_tour_3 < b.score_tour_3 || (a.score_tour_3 == b.score_tour_3 && (
    a.score_tour_2 < b.score_tour_2 || (a.score_tour_2 == b.score_tour_2 && a.score_tour_1 <= b.score_tour_1)))))))
}

fn listed_before_exec(a: &PlayerTotals, b: &PlayerTotals) -> (r: bool)
    ensures
        r == listed_before(*a, *b),
{
    a.total_score < b.total_score || (a.total_score == b.total_score && (a.final_tour < b.final_tour || (
    a.final_tour == b.final_tour && (a.score_tour_3 < b.score_tour_3 || (a.score_tour_3 == b.score_tour_3 && (
    a.score_tour_2 < b.score_tour_2 || (a.score_tour_2 == b.score_tour_2 && a.score_tour_1 <= b.score_tour_1)))))))
}

proof fn lemma_listed_before_order(a: PlayerTotals, b: PlayerTotals, c: PlayerTotals)
    requires
        !listed_before(b, a),
        listed_before(b, c),
    ensures
        listed_before(a, c),
{
}

/// `order` lists every position of `totals` once, in the order of the
/// results table.
pub open spec fn is_results_order(totals: Seq<PlayerTotals>, order: Seq<usize>) -> bool {
    &&& order.len() == totals.len()
    &&& forall|i: int| 0 <= i < order.len() ==> #[trigger] order[i] < totals.len()
    &&& forall|i: int, j: int| 0 <= i < j < order.len() ==> order[i] != order[j]
    &&& forall|i: int, j: int|
        0 <= i < j < order.len() ==> #[trigger] listed_before(totals[order[i] as int], totals[order[j] as int])
}

/// The order of the results table of a game (`get_tour_result`).
pub fn results_order(totals: &Vec<PlayerTotals>) -> (order: Vec<usize>)
    ensures
        is_results_order(totals@, order@),
        forall|i: int, j: int|
            0 <= i < j < order@.len() ==> (#[trigger] totals@[order@[i] as int]).total_score <= (
            #[trigger] totals@[order@[j] as int]).total_score,
{
    let n = totals.len();
    let mut chosen: Vec<bool> = Vec::new();
    let mut c: usize = 0;
    while c < n
        invariant
            c <= n,
            chosen@.len() == c,
            forall|k: int| 0 <= k < c ==> !chosen@[k],
        decreases n - c,
    {
        chosen.push(false);
        c = c + 1;
    }
    proof {
        assert(chosen@ =~= Seq::new(n as nat, |k: int| false));
        lemma_count_true_none(n as nat);
    }
    let mut order: Vec<usize> = Vec::new();
    let mut r: usize = 0;
    while r < n
        invariant
            n == totals@.len(),
            r <= n,
            order@.len() == r,
            chosen@.len() == n,
            forall|k: int| 0 <= k < n ==> (chosen@[k] <==> order@.contains(k as usize)),
            count_true(chosen@) == r,
            forall|i: int| 0 <= i < r ==> #[trigger] order@[i] < n,
            forall|i: int, j: int| 0 <= i < j < r ==> order@[i] != order@[j],
            forall|i: int, k: int|
                0 <= i < r && 0 <= k < n && !chosen@[k] ==> #[trigger] listed_before(
                    totals@[order@[i] as int],
                    totals@[k],
                ),
            forall|i: int, j: int|
                0 <= i < j < r ==> #[trigger] listed_before(totals@[order@[i] as int], totals@[order@[j] as int]),
        decreases n - r,
    {
        assert(exists|k: int| 0 <= k < n && !chosen@[k]) by {
            if forall|k: int| 0 <= k < n ==> chosen@[k] {
                lemma_count_true_all(chosen@);
            }
        }
        let mut best: usize = n;
        let mut j: usize = 0;
        while j < n
            invariant
                n == totals@.len(),
                chosen@.len() == n,
                j <= n,
                best == n || (best < n && !chosen@[best as int]),
                best == n ==> forall|k: int| 0 <= k < j ==> chosen@[k],
                best < n ==> forall|k: int|
                    0 <= k < j && !chosen@[k] ==> #[trigger] listed_before(totals@[best as int], totals@[k]),
            decreases n - j,
        {
            let ghost old_best = best;
            if !chosen[j] {
                if best == n || !listed_before_exec(&totals[best], &totals[j]) {
                    best = j;
                }
            }
            proof {
                if best < n {
                    assert forall|k: int| 0 <= k < j + 1 && !chosen@[k] implies #[trigger] listed_before(
                        totals@[best as int],
                        totals@[k],
                    ) by {
                        if best != old_best && old_best < n && k < j {
                            lemma_listed_before_order(
                                totals@[best as int],
                                totals@[old_best as int],
                                totals@[k],
                            );
                        }
                    }
                }
            }
            j = j + 1;
        }
        assert(best < n);
        let ghost old_order = order@;
        let ghost old_chosen = chosen@;
        proof {
            lemma_count_true_set(chosen@, best as int);
        }
        order.push(best);
        chosen.set(best, true);
        assert forall|k: int| 0 <= k < n implies (chosen@[k] <==> order@.contains(k as usize)) by {
            if k == best as int {
                assert(order@[r as int] == best);
            } else {
                assert(chosen@[k] == old_chosen[k]);
                if old_order.contains(k as usize) {
                    let i = choose|i: int| 0 <= i < old_order.len() && old_order[i] == k as usize;
                    assert(order@[i] == k as usize);
                }
                if order@.contains(k as usize) {
                    let i = choose|i: int| 0 <= i < order@.len() && order@[i] == k as usize;
                    assert(i < r);
                    assert(old_order[i] == k as usize);
                }
            }
        }
        assert forall|i: int, j2: int| 0 <= i < j2 < r + 1 implies order@[i] != order@[j2] by {
            if j2 == r {
                assert(old_chosen[old_order[i] as int]);
            }
        }
        assert forall|i: int, j2: int| 0 <= i < j2 < r + 1 implies #[trigger] listed_before(
            totals@[order@[i] as int],
            totals@[order@[j2] as int],
        ) by {
            if j2 == r {
                assert(!old_chosen[best as int]);
                assert(old_order[i] == order@[i]);
            } else {
                assert(old_order[i] == order@[i] && old_order[j2] == order@[j2]);
            }
        }
        r = r + 1;
    }
    proof {
        lemma_results_ascend_by_total(totals@, order@);
    }
    order
}

/// A row of the results table of a game.
pub struct PlayersQualifyingGameData {
    pub id: i64,
    pub player_real_last_name: String,
    pub player_real_first_name: String,
    pub player_real_patronymic: String,
    pub score_tour_1: i64,
    pub score_tour_2: i64,
    pub score_tour_3: i64,
    pub final_tour: i64,
    pub total_score: i64,
}

pub struct PlayersQualifyingGameDataResponse {
    pub players: Vec<PlayersQualifyingGameData>,
}

/// A player on the list of those registered for a game.
pub struct PlayersListData {
    pub player_id: i64,
    pub player_real_last_name: String,
    pub player_real_first_name: String,
    pub player_real_patronymic: String,
    pub player_real_phone_number: i64,
}

pub struct PlayersListDataResponse {
    pub players: Vec<PlayersListData>,
}

/// The results table of a game (`get_tour_result`): one row per player,
/// from the lowest score up, each with the player's names (`names[k]` are
/// those of `totals[k]`) and scores.
pub fn query_players_qualifying_round_result(totals: &Vec<PlayerTotals>, names: &Vec<PlayerNames>) -> (r:
    PlayersQualifyingGameDataResponse)
    requires
        names@.len() == totals@.len(),
    ensures
        exists|order: Seq<usize>|
            #[trigger] is_results_order(totals@, order) && r.players@.len() == order.len() && forall|i: int|
                0 <= i < order.len() ==> {
                    let t = totals@[order[i] as int];
                    let nm = names@[order[i] as int];
                    let p = #[trigger] r.players@[i];
                    &&& p.id == t.player_id
                    &&& p.score_tour_1 == t.score_tour_1 && p.score_tour_2 == t.score_tour_2
                    &&& p.score_tour_3 == t.score_tour_3 && p.final_tour == t.final_tour
                    &&& p.total_score == t.total_score
                    &&& p.player_real_last_name@ == nm.player_real_last_name@
                    &&& p.player_real_first_name@ == nm.player_real_first_name@
                    &&& p.player_real_patronymic@ == nm.player_real_patronymic@
                },
{
    let order = results_order(totals);
    let mut rows: Vec<PlayersQualifyingGameData> = Vec::new();
    let mut i: usize = 0;
    while i < order.len()
        invariant
            is_results_order(totals@, order@),
            names@.len() == totals@.len(),
            i <= order@.len(),
            rows@.len() == i,
            forall|k: int|
                0 <= k < i ==> {
                    let t = totals@[order@[k] as int];
                    let nm = names@[order@[k] as int];
                    let p = #[trigger] rows@[k];
                    &&& p.id == t.player_id
                    &&& p.score_tour_1 == t.score_tour_1 && p.score_tour_2 == t.score_tour_2
                    &&& p.score_tour_3 == t.score_tour_3 && p.final_tour == t.final_tour
                    &&& p.total_score == t.total_score
                    &&& p.player_real_last_name@ == nm.player_real_last_name@
                    &&& p.player_real_first_name@ == nm.player_real_first_name@
                    &&& p.player_real_patronymic@ == nm.player_real_patronymic@
                },
        decreases order.len() - i,
    {
        let k = order[i];
        let t = totals[k];
        let nm = &names[k];
        rows.push(
            PlayersQualifyingGameData {
                id: t.player_id,
                player_real_last_name: nm.player_real_last_name.clone(),
                player_real_first_name: nm.player_real_first_name.clone(),
                player_real_patronymic: nm.player_real_patronymic.clone(),
                score_tour_1: t.score_tour_1,
                score_tour_2: t.score_tour_2,
                score_tour_3: t.score_tour_3,
                final_tour: t.final_tour,
                total_score: t.total_score,
            },
        );
        i = i + 1;
    }
    PlayersQualifyingGameDataResponse { players: rows }
}

/// For each row, the position of the first row with the same player.
fn first_rows(rows: &Vec<PlayersListData>) -> (first: Vec<usize>)
    ensures
        first@.len() == rows@.len(),
        forall|k: int|
            0 <= k < rows@.len() ==> {
                let f = #[trigger] first@[k] as int;
                &&& f <= k
                &&& rows@[f].player_id == rows@[k].player_id
                &&& forall|j: int| 0 <= j < f ==> rows@[j].player_id != rows@[k].player_id
            },
{
    let mut first: Vec<usize> = Vec::new();
    let mut k: usize = 0;
    while k < rows.len()
        invariant
            k <= rows@.len(),
            first@.len() == k,
            forall|m: int|
                0 <= m < k ==> {
                    let f = #[trigger] first@[m] as int;
                    &&& f <= m
                    &&& rows@[f].player_id == rows@[m].player_id
                    &&& forall|j: int| 0 <= j < f ==> rows@[j].player_id != rows@[m].player_id
                },
        decreases rows.len() - k,
    {
        let mut j: usize = 0;
        while rows[j].player_id != rows[k].player_id
            invariant
                k < rows@.len(),
                j <= k,
                forall|i: int| 0 <= i < j ==> rows@[i].player_id != rows@[k as int].player_id,
            decreases k - j,
        {
            j = j + 1;
        }
        first.push(j);
        k = k + 1;
    }
    first
}

/// `id` is on the list.
pub open spec fn listed(list: Seq<PlayersListData>, id: i64) -> bool {
    exists|i: int| 0 <= i < list.len() && #[trigger] list[i].player_id == id
}

/// Every registered person is on the list.
pub open spec fn everyone_listed(rows: Seq<PlayersListData>, list: Seq<PlayersListData>) -> bool {
    forall|k: int| 0 <= k < rows.len() ==> #[trigger] listed(list, rows[k].player_id)
}

/// `row` is a row of the registration.
pub open spec fn registered_row(rows: Seq<PlayersListData>, row: PlayersListData) -> bool {
    exists|k: int| 0 <= k < rows.len() && #[trigger] rows[k] == row
}

/// The list holds only rows of the registration.
pub open spec fn only_registered(rows: Seq<PlayersListData>, list: Seq<PlayersListData>) -> bool {
    forall|i: int| 0 <= i < list.len() ==> #[trigger] registered_row(rows, list[i])
}

/// The list of people registered in one role (`GROUP BY player_id`): each
/// person once, with one of their rows; the order is left open, as the
/// query leaves it.
#[verifier::rlimit(100)]
pub fn query_players_registration_result(rows: Vec<PlayersListData>) -> (r: PlayersListDataResponse)
    ensures
        forall|i: int, j: int|
            0 <= i < j < r.players@.len() ==> (#[trigger] r.players@[i]).player_id != (#[trigger] r.players@[j]).player_id,
        everyone_listed(rows@, r.players@),
        only_registered(rows@, r.players@),
{
    let first = first_rows(&rows);
    let n = rows.len();
    let ghost all = rows@;
    let mut pending = rows;
    let mut out: Vec<PlayersListData> = Vec::new();
    let ghost mut idx: Seq<int> = Seq::empty();
    while pending.len() > 0
        invariant
            n == all.len(),
            first@.len() == n,
            forall|k: int|
                0 <= k < n ==> {
                    let f = #[trigger] first@[k] as int;
                    &&& f <= k
                    &&& all[f].player_id == all[k].player_id
                    &&& forall|j: int| 0 <= j < f ==> all[j].player_id != all[k].player_id
                },
            pending@ == all.take(pending@.len() as int),
            pending@.len() <= n,
            idx.len() == out@.len(),
            forall|i: int|
                0 <= i < out@.len() ==> pending@.len() <= #[trigger] idx[i] < n && out@[i] == all[idx[i]]
                    && first@[idx[i]] == idx[i],
            forall|i: int, j: int| 0 <= i < j < out@.len() ==> #[trigger] idx[i] > #[trigger] idx[j],
            forall|k: int|
                pending@.len() <= k < n && first@[k] == k ==> exists|i: int|
                    0 <= i < idx.len() && #[trigger] idx[i] == k,
        decreases pending.len(),
    {
        let k = pending.len() - 1;
        let p = pending.pop().unwrap();
        assert(pending@ =~= all.take(k as int));
        assert(p == all[k as int]);
        let ghost old_idx = idx;
        if first[k] == k {
            out.push(p);
            proof {
                idx = idx.push(k as int);
                assert(idx[idx.len() - 1] == k);
            }
        }
        proof {
            assert forall|k2: int|
                pending@.len() <= k2 < n && first@[k2] == k2 implies exists|i: int|
                    0 <= i < idx.len() && #[trigger] idx[i] == k2 by {
                if k2 == k {
                    assert(idx[idx.len() - 1] == k);
                } else {
                    let i = choose|i: int| 0 <= i < old_idx.len() && #[trigger] old_idx[i] == k2;
                    assert(idx[i] == old_idx[i]);
                }
            }
        }
    }
    proof {
        assert forall|i: int, j: int| 0 <= i < j < out@.len() implies (#[trigger] out@[i]).player_id != (
        #[trigger] out@[j]).player_id by {
            let a = idx[i];
            let b = idx[j];
            assert(a > b);
            assert(first@[a] == a);
            assert(forall|m: int| 0 <= m < first@[a] as int ==> all[m].player_id != all[a].player_id);
        }
    }
    let ghost o = out@;
    assert(everyone_listed(all, o)) by {
        assert forall|k: int| 0 <= k < all.len() implies #[trigger] listed(o, all[k].player_id) by {
            let f = first@[k] as int;
            assert(first@[f] as int <= f);
            if (first@[f] as int) < f {
                assert(all[first@[f] as int].player_id == all[f].player_id);
                assert(false);
            }
            let i = choose|i: int| 0 <= i < idx.len() && #[trigger] idx[i] == f;
            assert(o[i] == all[f]);
            assert(0 <= i < o.len());
            assert(o[i].player_id == all[k].player_id);
        }
    }
    assert(only_registered(all, o)) by {
        assert forall|i: int| 0 <= i < o.len() implies #[trigger] registered_row(all, o[i]) by {
            assert(all[idx[i]] == o[i]);
        }
    }
    assert(rows@ == all);
    let resp = PlayersListDataResponse { players: out };
    assert(resp.players@ == o);
    resp
}

/// The finalists are chosen by their total first: every finalist's total
/// is at least that of every player left out, and only where the totals
/// are equal does the third tour decide, then the second, then the first.
pub proof fn lemma_finalists_by_total(totals: Seq<PlayerTotals>, picked: Seq<usize>)
    requires
        is_top(totals, picked),
    ensures
        forall|i: int, k: int|
            0 <= i < picked.len() && 0 <= k < totals.len() && !picked.contains(k as usize) ==> {
                let a = #[trigger] totals[picked[i] as int];
                let b = #[trigger] totals[k];
                &&& a.total_score >= b.total_score
                &&& a.total_score == b.total_score ==> a.score_tour_3 >= b.score_tour_3
                &&& a.total_score == b.total_score && a.score_tour_3 == b.score_tour_3 ==> a.score_tour_2
                    >= b.score_tour_2
                &&& a.total_score == b.total_score && a.score_tour_3 == b.score_tour_3 && a.score_tour_2
                    == b.score_tour_2 ==> a.score_tour_1 >= b.score_tour_1
            },
{
    assert forall|i: int, k: int|
        0 <= i < picked.len() && 0 <= k < totals.len() && !picked.contains(k as usize) implies {
            let a = #[trigger] totals[picked[i] as int];
            let b = #[trigger] totals[k];
            &&& a.total_score >= b.total_score
            &&& a.total_score == b.total_score ==> a.score_tour_3 >= b.score_tour_3
            &&& a.total_score == b.total_score && a.score_tour_3 == b.score_tour_3 ==> a.score_tour_2
                >= b.score_tour_2
            &&& a.total_score == b.total_score && a.score_tour_3 == b.score_tour_3 && a.score_tour_2
                == b.score_tour_2 ==> a.score_tour_1 >= b.score_tour_1
        } by {
        assert(ranks_at_least(totals[picked[i] as int], totals[k]));
    }
}

/// The results table goes from the lowest total up: every row's total is
/// at most that of each later row, and only where the totals are equal
/// does the final decide, then the third, second and first tour.
pub proof fn lemma_results_ascend_by_total(totals: Seq<PlayerTotals>, order: Seq<usize>)
    requires
        is_results_order(totals, order),
    ensures
        forall|i: int, j: int|
            0 <= i < j < order.len() ==> {
                let a = #[trigger] totals[order[i] as int];
                let b = #[trigger] totals[order[j] as int];
                &&& a.total_score <= b.total_score
                &&& a.total_score == b.total_score ==> a.final_tour <= b.final_tour
                &&& a.total_score == b.total_score && a.final_tour == b.final_tour ==> a.score_tour_3
                    <= b.score_tour_3
                &&& a.total_score == b.total_score && a.final_tour == b.final_tour && a.score_tour_3
                    == b.score_tour_3 ==> a.score_tour_2 <= b.score_tour_2
                &&& a.total_score == b.total_score && a.final_tour == b.final_tour && a.score_tour_3
                    == b.score_tour_3 && a.score_tour_2 == b.score_tour_2 ==> a.score_tour_1 <= b.score_tour_1
            },
{
    assert forall|i: int, j: int| 0 <= i < j < order.len() implies {
        let a = #[trigger] totals[order[i] as int];
        let b = #[trigger] totals[order[j] as int];
        &&& a.total_score <= b.total_score
        &&& a.total_score == b.total_score ==> a.final_tour <= b.final_tour
        &&& a.total_score == b.total_score && a.final_tour == b.final_tour ==> a.score_tour_3 <= b.score_tour_3
        &&& a.total_score == b.total_score && a.final_tour == b.final_tour && a.score_tour_3 == b.score_tour_3
            ==> a.score_tour_2 <= b.score_tour_2
        &&& a.total_score == b.total_score && a.final_tour == b.final_tour && a.score_tour_3 == b.score_tour_3
            && a.score_tour_2 == b.score_tour_2 ==> a.score_tour_1 <= b.score_tour_1
    } by {
        assert(listed_before(totals[order[i] as int], totals[order[j] as int]));
    }
}

} // verus!
