//! Question packs: which questions a pack admits, the stage of a pack, and
//! the page the organiser goes on with after adding a question.

use vstd::prelude::*;
use vstd::string::*;
use crate::text::same_text;

verus! {

/// Questions in a complete pack.
pub const QUANTITY_QUESTIONS: i32 = 270;

/// Topics (of five questions each) in a complete pack.
pub const QUANTITY_TOPICS: i32 = 54;

/// A topic of five questions, as the schema page sends it.
pub struct TopicData {
    pub name: String,
}

/// A question to add to pack `questions_pac_id`; `player_id` and
/// `player_question_id` are set when a player sent it.
pub struct NewQuestion {
    pub user_id: i64,
    pub questions_pac_id: i64,
    pub topic_five_questions: String,
    pub question: String,
    pub answer: String,
    pub price_question: i32,
    pub player_id: Option<i64>,
    pub player_question_id: Option<i64>,
}

/// What admission reads of a question already in the pack.
pub struct PackQuestion {
    pub topic_five_questions: String,
    pub question: String,
    pub price_question: i32,
}

/// The pack holds no question with the same text, and no question of the
/// same topic at the same price.
pub open spec fn admissible(pack: Seq<PackQuestion>, topic: Seq<char>, question: Seq<char>, price: i32) -> bool {
    &&& forall|k: int| 0 <= k < pack.len() ==> (#[trigger] pack[k]).question@ != question
    &&& forall|k: int|
        0 <= k < pack.len() ==> !((#[trigger] pack[k]).topic_five_questions@ == topic && pack[k].price_question
            == price)
}

/// No two questions of the pack share a text, or a topic and a price.
pub open spec fn well_formed_pack(pack: Seq<PackQuestion>) -> bool {
    forall|i: int, j: int|
        0 <= i < j < pack.len() ==> (#[trigger] pack[i]).question@ != (#[trigger] pack[j]).question@ && !(
        pack[i].topic_five_questions@ == pack[j].topic_five_questions@ && pack[i].price_question
            == pack[j].price_question)
}

/// Whether `new` is added to the pack: it is when the pack admits it;
/// otherwise it is silently left out.
pub fn create_question(pack: &Vec<PackQuestion>, new: &NewQuestion) -> (added: bool)
    ensures
        added == admissible(pack@, new.topic_five_questions@, new.question@, new.price_question),
{
    let mut i: usize = 0;
    while i < pack.len()
        invariant
            i <= pack@.len(),
            forall|k: int| 0 <= k < i ==> (#[trigger] pack@[k]).question@ != new.question@,
        decreases pack.len() - i,
    {
        if same_text(pack[i].question.as_str(), new.question.as_str()) {
            return false;
        }
        i = i + 1;
    }
    let mut j: usize = 0;
    while j < pack.len()
        invariant
            j <= pack@.len(),
            forall|k: int|
                0 <= k < j ==> !((#[trigger] pack@[k]).topic_five_questions@ == new.topic_five_questions@
                    && pack@[k].price_question == new.price_question),
        decreases pack.len() - j,
    {
        if same_text(pack[j].topic_five_questions.as_str(), new.topic_five_questions.as_str())
            && pack[j].price_question == new.price_question {
            return false;
        }
        j = j + 1;
    }
    true
}

/// The stage a pack is set to once it holds `count` questions: 0 while
/// incomplete, 1 when complete; above that it is left as it is.
pub open spec fn pack_stage(count: int) -> Option<i8> {
    if count < QUANTITY_QUESTIONS {
        Some(0i8)
    } else if count == QUANTITY_QUESTIONS {
        Some(1i8)
    } else {
        None
    }
}

pub fn check_update_stage_pac(count: i32) -> (stage: Option<i8>)
    ensures
        stage == pack_stage(count as int),
{
    if count < QUANTITY_QUESTIONS {
        Some(0)
    } else if count == QUANTITY_QUESTIONS {
        Some(1)
    } else {
        None
    }
}

/// The page the organiser goes on with after adding a question.
#[derive(Clone, Copy, PartialEq, Eq, Structural, Debug)]
pub enum PackPage {
    /// The pack is complete.
    QuestionsPacDone,
    /// The topic has its five questions: the next topic.
    PrepareQuestionsTopic,
    /// The next question of the same topic.
    PrepareQuestions,
}

pub open spec fn page_after_question(count: int, same_topic: int) -> PackPage {
    if count >= QUANTITY_QUESTIONS {
        PackPage::QuestionsPacDone
    } else if same_topic >= 5 {
        PackPage::PrepareQuestionsTopic
    } else {
        PackPage::PrepareQuestions
    }
}

/// Questions of the pack under `topic`.
pub open spec fn topic_count(pack: Seq<PackQuestion>, topic: Seq<char>) -> nat
    decreases pack.len(),
{
    if pack.len() == 0 {
        0
    } else {
        topic_count(pack.drop_last(), topic) + if pack.last().topic_five_questions@ == topic {
            1nat
        } else {
            0nat
        }
    }
}

proof fn lemma_topic_count_bound(pack: Seq<PackQuestion>, topic: Seq<char>)
    ensures
        topic_count(pack, topic) <= pack.len(),
    decreases pack.len(),
{
    if pack.len() > 0 {
        lemma_topic_count_bound(pack.drop_last(), topic);
    }
}

fn topic_count_exec(pack: &Vec<PackQuestion>, topic: &str) -> (n: usize)
    ensures
        n == topic_count(pack@, topic@),
{
    let mut n: usize = 0;
    let mut i: usize = 0;
    while i < pack.len()
        invariant
            i <= pack@.len(),
            n <= i,
            n == topic_count(pack@.take(i as int), topic@),
        decreases pack.len() - i,
    {
        assert(pack@.take(i + 1).drop_last() =~= pack@.take(i as int));
        if same_text(pack[i].topic_five_questions.as_str(), topic) {
            n = n + 1;
        }
        i = i + 1;
    }
    assert(pack@.take(pack@.len() as int) =~= pack@);
    n
}

/// What adding a question to a pack does: whether it is added, the stage
/// the pack is set to, and the page that follows.
pub struct QuestionRecording {
    pub added: bool,
    pub stage: Option<i8>,
    pub page: PackPage,
}

pub open spec fn pack_after(pack: Seq<PackQuestion>, added: bool, new: PackQuestion) -> Seq<PackQuestion> {
    if added {
        pack.push(new)
    } else {
        pack
    }
}

/// The organiser adds `new` to the pack `pack`: the question is added when
/// the pack admits it; then the pack's stage follows its size, and the
/// organiser goes on with the same topic until it has five questions, with
/// a new topic after that, until the pack is complete.
pub fn rec_question_db_2(pack: &Vec<PackQuestion>, new: &NewQuestion) -> (r: QuestionRecording)
    requires
        pack@.len() < i32::MAX,
    ensures
        r.added == admissible(pack@, new.topic_five_questions@, new.question@, new.price_question),
        ({
            let count = pack@.len() + if r.added {
                1int
            } else {
                0int
            };
            let same = topic_count(pack@, new.topic_five_questions@) + if r.added {
                1int
            } else {
                0int
            };
            &&& r.stage == pack_stage(count)
            &&& r.page == page_after_question(count, same)
        }),
{
    let added = create_question(pack, new);
    proof {
        lemma_topic_count_bound(pack@, new.topic_five_questions@);
    }
    let count: i32 = pack.len() as i32 + if added {
        1
    } else {
        0
    };
    let same: usize = topic_count_exec(pack, new.topic_five_questions.as_str()) + if added {
        1
    } else {
        0
    };
    let stage = check_update_stage_pac(count);
    let page = if count >= QUANTITY_QUESTIONS {
        PackPage::QuestionsPacDone
    } else if same >= 5 {
        PackPage::PrepareQuestionsTopic
    } else {
        PackPage::PrepareQuestions
    };
    QuestionRecording { added, stage, page }
}

/// Adding questions only through admission keeps a pack free of repeated
/// questions and of two questions of one topic at one price.
pub proof fn lemma_admission_keeps_pack_well_formed(pack: Seq<PackQuestion>, new: PackQuestion)
    requires
        well_formed_pack(pack),
    ensures
        well_formed_pack(pack_after(
            pack,
            admissible(pack, new.topic_five_questions@, new.question@, new.price_question),
            new,
        )),
{
    let added = admissible(pack, new.topic_five_questions@, new.question@, new.price_question);
    if added {
        let after = pack.push(new);
        assert forall|i: int, j: int| 0 <= i < j < after.len() implies (#[trigger] after[i]).question@
            != (#[trigger] after[j]).question@ && !(after[i].topic_five_questions@ == after[j].topic_five_questions@
            && after[i].price_question == after[j].price_question) by {
            if j == pack.len() {
                assert(after[i] == pack[i]);
                assert(after[j] == new);
            } else {
                assert(after[i] == pack[i] && after[j] == pack[j]);
            }
        }
    }
}

/// A pack is marked complete exactly when it holds all its questions.
pub proof fn lemma_stage_one_iff_complete(count: int)
    ensures
        pack_stage(count) == Some(1i8) <==> count == QUANTITY_QUESTIONS,
{
}

/// The distinct topics of the pack, in order of first appearance.
pub open spec fn topics_of(pack: Seq<PackQuestion>) -> Seq<Seq<char>>
    decreases pack.len(),
{
    if pack.len() == 0 {
        seq![]
    } else {
        let r = topics_of(pack.drop_last());
        if r.contains(pack.last().topic_five_questions@) {
            r
        } else {
            r.push(pack.last().topic_five_questions@)
        }
    }
}

/// The distinct topics of the pack, in order of first appearance.
pub fn query_topics_unique(pack: &Vec<PackQuestion>) -> (topics: Vec<String>)
    ensures
        crate::text::views(topics@) == topics_of(pack@),
{
    let mut seen: Vec<String> = Vec::new();
    let mut i: usize = 0;
    while i < pack.len()
        invariant
            i <= pack@.len(),
            crate::text::views(seen@) == topics_of(pack@.take(i as int)),
        decreases pack.len() - i,
    {
        let ghost prefix = pack@.take(i as int);
        assert(pack@.take(i + 1).drop_last() =~= prefix);
        let t = pack[i].topic_five_questions.as_str();
        let mut found = false;
        let mut j: usize = 0;
        while j < seen.len()
            invariant
                j <= seen@.len(),
                found == exists|k: int| 0 <= k < j && seen@[k]@ == t@,
            decreases seen.len() - j,
        {
            if same_text(seen[j].as_str(), t) {
                found = true;
            }
            j = j + 1;
        }
        let ghost vs = crate::text::views(seen@);
        assert(found == vs.contains(t@)) by {
            if found {
                let k = choose|k: int| 0 <= k < seen@.len() && seen@[k]@ == t@;
                assert(vs[k] == t@);
            }
            if vs.contains(t@) {
                let k = choose|k: int| 0 <= k < vs.len() && vs[k] == t@;
                assert(seen@[k]@ == t@);
            }
        }
        if !found {
            seen.push(String::from_str(t));
            assert(crate::text::views(seen@) =~= vs.push(t@));
        }
        i = i + 1;
    }
    assert(pack@.take(pack@.len() as int) =~= pack@);
    seen
}

/// The topics, among `topics`, that hold fewer than five questions of the
/// pack, in the order of `topics`.
pub open spec fn short_topics(pack: Seq<PackQuestion>, topics: Seq<Seq<char>>) -> Seq<Seq<char>>
    decreases topics.len(),
{
    if topics.len() == 0 {
        seq![]
    } else {
        let r = short_topics(pack, topics.drop_last());
        if topic_count(pack, topics.last()) < 5 {
            r.push(topics.last())
        } else {
            r
        }
    }
}

/// The topics of the pack that still lack questions (fewer than five), in
/// order of first appearance: those the organiser can go on filling.
pub fn query_topics(pack: &Vec<PackQuestion>) -> (topics: Vec<String>)
    ensures
        crate::text::views(topics@) == short_topics(pack@, topics_of(pack@)),
{
    let all = query_topics_unique(pack);
    let ghost names = crate::text::views(all@);
    let mut out: Vec<String> = Vec::new();
    let mut i: usize = 0;
    while i < all.len()
        invariant
            i <= all@.len(),
            names == crate::text::views(all@),
            crate::text::views(out@) == short_topics(pack@, names.take(i as int)),
        decreases all.len() - i,
    {
        assert(names.take(i + 1).drop_last() =~= names.take(i as int));
        assert(names.take(i + 1).last() == all@[i as int]@);
        let t = all[i].as_str();
        if topic_count_exec(pack, t) < 5 {
            let ghost before = crate::text::views(out@);
            out.push(String::from_str(t));
            assert(crate::text::views(out@) =~= before.push(t@));
        }
        i = i + 1;
    }
    assert(names.take(names.len() as int) =~= names);
    out
}

/// Whether the organiser may start another topic: a pack has at most
/// fifty-four topics.
pub fn add_topic(pack: &Vec<PackQuestion>) -> (allowed: bool)
    ensures
        allowed == (topics_of(pack@).len() < QUANTITY_TOPICS),
{
    query_topics_unique(pack).len() < QUANTITY_TOPICS as usize
}

/// Why a pack could not be created.
#[derive(Clone, Copy, PartialEq, Eq, Structural, Debug)]
pub enum PackError {
    /// Another pack already has this name.
    NameTaken,
}

/// A new pack needs a name no other pack has.
pub fn create_questions_pac(existing_names: &Vec<String>, package_name: &str) -> (r: Result<(), PackError>)
    ensures
        r is Ok <==> forall|k: int| 0 <= k < existing_names@.len() ==> (#[trigger] existing_names@[k])@
            != package_name@,
{
    let mut i: usize = 0;
    while i < existing_names.len()
        invariant
            i <= existing_names@.len(),
            forall|k: int| 0 <= k < i ==> (#[trigger] existing_names@[k])@ != package_name@,
        decreases existing_names.len() - i,
    {
        if same_text(existing_names[i].as_str(), package_name) {
            return Err(PackError::NameTaken);
        }
        i = i + 1;
    }
    Ok(())
}

/// A player's question added to a pack by the organiser goes through the
/// same admission as the organiser's own questions.
pub fn create_question_2(pack: &Vec<PackQuestion>, new: &NewQuestion) -> (added: bool)
    ensures
        added == admissible(pack@, new.topic_five_questions@, new.question@, new.price_question),
{
    create_question(pack, new)
}

/// A player's question put into the topic being filled: it is recorded as
/// an organiser's question is, and the organiser goes on as after one.
pub fn rec_in_topic_question_player(pack: &Vec<PackQuestion>, new: &NewQuestion) -> (r: QuestionRecording)
    requires
        pack@.len() < i32::MAX,
    ensures
        r.added == admissible(pack@, new.topic_five_questions@, new.question@, new.price_question),
        ({
            let count = pack@.len() + if r.added {
                1int
            } else {
                0int
            };
            let same = topic_count(pack@, new.topic_five_questions@) + if r.added {
                1int
            } else {
                0int
            };
            &&& r.stage == pack_stage(count)
            &&& r.page == page_after_question(count, same)
        }),
{
    let added = create_question_2(pack, new);
    proof {
        lemma_topic_count_bound(pack@, new.topic_five_questions@);
    }
    let count: i32 = pack.len() as i32 + if added {
        1
    } else {
        0
    };
    let same: usize = topic_count_exec(pack, new.topic_five_questions.as_str()) + if added {
        1
    } else {
        0
    };
    let page = if count >= QUANTITY_QUESTIONS {
        PackPage::QuestionsPacDone
    } else if same >= 5 {
        PackPage::PrepareQuestionsTopic
    } else {
        PackPage::PrepareQuestions
    };
    QuestionRecording { added, stage: check_update_stage_pac(count), page }
}

/// A player's question that starts a new pack named `package_name`: the
/// pack is refused when another pack has the name; otherwise it is created
/// empty, and an empty pack always admits the question (`Ok(true)`).
pub fn rec_question_from_player_context(existing_names: &Vec<String>, package_name: &str, new: &NewQuestion) -> (r:
    Result<bool, PackError>)
    ensures
        r is Err <==> exists|k: int| 0 <= k < existing_names@.len() && (#[trigger] existing_names@[k])@
            == package_name@,
        r is Err ==> r == Err::<bool, PackError>(PackError::NameTaken),
        r is Ok ==> r == Ok::<bool, PackError>(true),
{
    match create_questions_pac(existing_names, package_name) {
        Err(e) => Err(e),
        Ok(()) => {
            let fresh: Vec<PackQuestion> = Vec::new();
            let added = create_question(&fresh, new);
            assert(admissible(fresh@, new.topic_five_questions@, new.question@, new.price_question));
            Ok(added)
        },
    }
}

/// The views of a list of lists.
pub open spec fn deep(v: Seq<Vec<i64>>) -> Seq<Seq<i64>> {
    Seq::new(v.len(), |k: int| v[k]@)
}

/// A pack's question ids (ordered by topic, then price) cut into topics:
/// runs of five, the last run possibly shorter.
pub open spec fn topic_chunks(ids: Seq<i64>) -> Seq<Seq<i64>> {
    Seq::new(
        ((ids.len() + 4) / 5) as nat,
        |k: int| ids.subrange(5 * k, if 5 * k + 5 <= ids.len() {
            5 * k + 5
        } else {
            ids.len() as int
        }),
    )
}

/// `picked` are the chunks at the positions `idx`, no position twice.
pub open spec fn is_pick(chunks: Seq<Seq<i64>>, picked: Seq<Seq<i64>>, idx: Seq<int>) -> bool {
    &&& idx.len() == picked.len()
    &&& forall|i: int| 0 <= i < idx.len() ==> 0 <= #[trigger] idx[i] < chunks.len() && picked[i] == chunks[idx[i]]
    &&& forall|i: int, j: int| 0 <= i < j < idx.len() ==> idx[i] != idx[j]
}

pub open spec fn min_usize(a: int, b: int) -> int {
    if a < b {
        a
    } else {
        b
    }
}

/// Chooses `amount` of the chunks at random with `rand`'s
/// `SliceRandom::choose_multiple`: it samples that many distinct positions
/// (all of them when there are fewer chunks) and yields the chunks there,
/// in random order. The contract claims only that: which chunks and in
/// which order is left open.
#[verifier::external_body]
fn choose_topics(chunks: &Vec<Vec<i64>>, amount: usize) -> (picked: Vec<Vec<i64>>)
    ensures
        picked@.len() == min_usize(amount as int, chunks@.len() as int),
        exists|idx: Seq<int>| #[trigger] is_pick(deep(chunks@), deep(picked@), idx),
{
    rand::seq::SliceRandom::choose_multiple(chunks.as_slice(), &mut rand::thread_rng(), amount).cloned().collect()
}

fn chunks_of_five(ids: &Vec<i64>) -> (chunks: Vec<Vec<i64>>)
    ensures
        deep(chunks@) == topic_chunks(ids@),
{
    let n = ids.len();
    let mut chunks: Vec<Vec<i64>> = Vec::new();
    let mut k: usize = 0;
    while k * 5 < n
        invariant
            n == ids@.len(),
            chunks@.len() == k,
            5 * k <= n + 4,
            forall|c: int| 0 <= c < k ==> (#[trigger] chunks@[c])@ == topic_chunks(ids@)[c],
        decreases n + 5 - 5 * k,
    {
        let start = k * 5;
        let end = if start + 5 <= n {
            start + 5
        } else {
            n
        };
        let mut chunk: Vec<i64> = Vec::new();
        let mut i = start;
        while i < end
            invariant
                start <= i <= end <= n,
                n == ids@.len(),
                chunk@ == ids@.subrange(start as int, i as int),
            decreases end - i,
        {
            chunk.push(ids[i]);
            i = i + 1;
            assert(chunk@ =~= ids@.subrange(start as int, i as int));
        }
        chunks.push(chunk);
        k = k + 1;
    }
    assert(chunks@.len() == ((n + 4) / 5));
    assert(deep(chunks@) =~= topic_chunks(ids@));
    chunks
}

fn flatten_chunks(chunks: &Vec<Vec<i64>>) -> (flat: Vec<i64>)
    ensures
        flat@ == deep(chunks@).flatten(),
{
    let mut flat: Vec<i64> = Vec::new();
    let mut c: usize = 0;
    while c < chunks.len()
        invariant
            c <= chunks@.len(),
            flat@ == deep(chunks@).take(c as int).flatten(),
        decreases chunks.len() - c,
    {
        let ghost before = deep(chunks@).take(c as int);
        let chunk = &chunks[c];
        let mut i: usize = 0;
        while i < chunk.len()
            invariant
                i <= chunk@.len(),
                flat@ == before.flatten() + chunk@.take(i as int),
            decreases chunk.len() - i,
        {
            flat.push(chunk[i]);
            i = i + 1;
            assert(flat@ =~= before.flatten() + chunk@.take(i as int));
        }
        proof {
            assert(chunk@.take(chunk@.len() as int) =~= chunk@);
            assert(deep(chunks@).take(c + 1) =~= before + seq![chunk@]);
            vstd::seq_lib::lemma_flatten_concat(before, seq![chunk@]);
            seq![chunk@].lemma_flatten_one_element();
        }
        c = c + 1;
    }
    assert(deep(chunks@).take(chunks@.len() as int) =~= deep(chunks@));
    flat
}

/// The order in which a game asks the pack's questions, and whether the
/// organiser's layout was used (a layout serves one game: it is dropped
/// once used).
pub struct QuestionOrder {
    pub order: Vec<i64>,
    pub layout_used: bool,
}

/// The order in which a game asks the pack's questions, one per schema
/// row from the first: the order the organiser laid out, when there is
/// one (which is then used up); otherwise fifty-four topics of five
/// questions drawn at random, each topic kept whole and in its order.
pub fn sequence_questions(schema_ids: Option<Vec<i64>>, pack_ids: &Vec<i64>) -> (r: QuestionOrder)
    ensures
        r.layout_used == schema_ids is Some,
        schema_ids matches Some(s) ==> r.order@ == s@,
        schema_ids is None ==> exists|picked: Seq<Seq<i64>>, idx: Seq<int>|
            #[trigger] is_pick(topic_chunks(pack_ids@), picked, idx) && picked.len() == min_usize(
                QUANTITY_TOPICS as int,
                topic_chunks(pack_ids@).len() as int,
            ) && r.order@ == picked.flatten(),
{
    match schema_ids {
        Some(s) => QuestionOrder { order: s, layout_used: true },
        None => {
            let chunks = chunks_of_five(pack_ids);
            let picked = choose_topics(&chunks, QUANTITY_TOPICS as usize);
            let ghost p = deep(picked@);
            let order = flatten_chunks(&picked);
            assert(p.len() == min_usize(QUANTITY_TOPICS as int, topic_chunks(pack_ids@).len() as int));
            QuestionOrder { order, layout_used: false }
        },
    }
}

/// The question ids the organiser laid out, topic by topic (each topic's
/// ids ordered by price), as rows of the pack's schema from the first.
pub fn rec_schema_questions(topic_ids: &Vec<Vec<i64>>) -> (ids: Vec<i64>)
    ensures
        ids@ == deep(topic_ids@).flatten(),
{
    flatten_chunks(topic_ids)
}

proof fn lemma_flatten_member(s: Seq<Seq<i64>>, x: i64)
    requires
        s.flatten().contains(x),
    ensures
        exists|j: int| 0 <= j < s.len() && #[trigger] s[j].contains(x),
    decreases s.len(),
{
    if s.len() > 0 {
        let f = s.flatten();
        assert(f == s.first() + s.drop_first().flatten());
        let k = choose|k: int| 0 <= k < f.len() && f[k] == x;
        if k < s.first().len() {
            assert(s[0][k] == x);
            assert(s[0].contains(x));
        } else {
            assert(s.drop_first().flatten()[k - s.first().len()] == x);
            lemma_flatten_member(s.drop_first(), x);
            let j = choose|j: int| 0 <= j < s.drop_first().len() && #[trigger] s.drop_first()[j].contains(x);
            assert(s[j + 1] == s.drop_first()[j]);
        }
    }
}

proof fn lemma_chunk_member(ids: Seq<i64>, c: int, x: i64)
    requires
        0 <= c < topic_chunks(ids).len(),
        topic_chunks(ids)[c].contains(x),
    ensures
        exists|p: int| 5 * c <= p < 5 * c + 5 && p < ids.len() && ids[p] == x,
{
    let ch = topic_chunks(ids)[c];
    let k = choose|k: int| 0 <= k < ch.len() && ch[k] == x;
    assert(ids[5 * c + k] == x);
}

/// A game never asks a question twice: when the pack holds each question
/// once, the questions drawn topic by topic are all different.
pub proof fn lemma_drawn_questions_distinct(ids: Seq<i64>, picked: Seq<Seq<i64>>, idx: Seq<int>)
    requires
        ids.no_duplicates(),
        is_pick(topic_chunks(ids), picked, idx),
    ensures
        picked.flatten().no_duplicates(),
    decreases picked.len(),
{
    if picked.len() > 0 {
        let chunks = topic_chunks(ids);
        let rest = picked.drop_first();
        let rest_idx = idx.drop_first();
        assert(is_pick(chunks, rest, rest_idx)) by {
            assert forall|i: int| 0 <= i < rest_idx.len() implies 0 <= #[trigger] rest_idx[i] < chunks.len()
                && rest[i] == chunks[rest_idx[i]] by {
                assert(rest_idx[i] == idx[i + 1]);
                assert(rest[i] == picked[i + 1]);
            }
            assert forall|i: int, j: int| 0 <= i < j < rest_idx.len() implies rest_idx[i] != rest_idx[j] by {
                assert(rest_idx[i] == idx[i + 1] && rest_idx[j] == idx[j + 1]);
            }
        }
        lemma_drawn_questions_distinct(ids, rest, rest_idx);
        let a = picked.first();
        let b = rest.flatten();
        let c0 = idx[0];
        assert(a == chunks[c0]);
        let start = 5 * c0;
        assert(a.no_duplicates()) by {
            assert forall|i: int, j: int| 0 <= i < a.len() && 0 <= j < a.len() && i != j implies a[i] != a[j] by {
                assert(a[i] == ids[start + i] && a[j] == ids[start + j]);
            }
        }
        assert forall|i: int, j: int| 0 <= i < a.len() && 0 <= j < b.len() implies a[i] != b[j] by {
            if a[i] == b[j] {
                let x = b[j];
                assert(b.contains(x));
                lemma_flatten_member(rest, x);
                let m = choose|m: int| 0 <= m < rest.len() && #[trigger] rest[m].contains(x);
                let cm = rest_idx[m];
                assert(rest[m] == chunks[cm]);
                lemma_chunk_member(ids, cm, x);
                let p = choose|p: int| 5 * cm <= p < 5 * cm + 5 && p < ids.len() && ids[p] == x;
                assert(a[i] == ids[start + i]);
                assert(cm == idx[m + 1]);
                assert(cm != c0);
            }
        }
        let f = picked.flatten();
        assert(f == a + b);
        assert forall|i: int, j: int| 0 <= i < f.len() && 0 <= j < f.len() && i != j implies f[i] != f[j] by {
            if i < a.len() && j < a.len() {
            } else if i >= a.len() && j >= a.len() {
                assert(f[i] == b[i - a.len()] && f[j] == b[j - a.len()]);
            } else if i < a.len() {
                assert(f[j] == b[j - a.len()]);
            } else {
                assert(f[i] == b[i - a.len()]);
            }
        }
    }
}

/// The organiser's question form.
pub struct QuestionForm {
    pub topic_five_questions: String,
    pub question: String,
    pub answer: String,
    pub price_question: i32,
}

/// The form that edits a question of a pack.
pub struct EditQuestionForm {
    pub question: String,
    pub answer: String,
    pub price_question: i32,
}

/// The form that starts a pack from a player's question.
pub struct PackageDataContextForm {
    pub package_name: String,
    pub topic_five_questions: String,
    pub question: String,
    pub answer: String,
    pub price_question: i32,
}

/// The form that puts a player's question into a topic of a pack.
pub struct QuestionDataContextForm {
    pub topic_five_questions: String,
    pub question: String,
    pub answer: String,
    pub price_question: i32,
}

/// The form that names a new pack.
pub struct PackageNameForm {
    pub package_name_form: String,
    pub game_type: String,
}

/// Page context naming a pack.
pub struct PackageNameContext {
    pub header: String,
    pub header_pac_id: i64,
    pub header_pac_name: String,
}

/// Page context naming a pack and the topic being filled.
pub struct PackageNameTopicContext {
    pub header: String,
    pub header_pac_id: i64,
    pub header_pac_name: String,
    pub header_topic_five_questions: String,
}

/// A question of a pack as the database gives it for editing.
pub struct AutofillQuestionDB {
    pub question: String,
    pub answer: String,
    pub price_question: i32,
}

/// The edit page of a question, filled with the question.
pub struct AutofillQuestion {
    pub header: String,
    pub header_pac_id: i64,
    pub header_pac_name: String,
    pub header_topic_five_questions: String,
    pub header_question_id: i32,
    pub question: String,
    pub answer: String,
    pub price_question: i32,
}

/// The pages of a pack's views.
#[derive(Clone, Copy, PartialEq, Eq, Structural, Debug)]
pub enum PackView {
    /// The complete pack, already handed over to another organiser.
    QuestionsPacDoneTransfer,
    /// The complete pack.
    QuestionsPacDone,
    /// An empty pack starts with its first topic.
    PrepareQuestionsTopic,
    /// The pack's questions, to edit.
    EditPac,
}

/// Viewing a pack: the page notes whether the pack was handed over.
pub fn view_pac(transferred: bool) -> (v: PackView)
    ensures
        v == (if transferred {
            PackView::QuestionsPacDoneTransfer
        } else {
            PackView::QuestionsPacDone
        }),
{
    if transferred {
        PackView::QuestionsPacDoneTransfer
    } else {
        PackView::QuestionsPacDone
    }
}

/// Editing a pack of `count` questions: an empty one starts with a topic.
pub fn edit_pac(count: i64) -> (v: PackView)
    ensures
        v == (if count == 0 {
            PackView::PrepareQuestionsTopic
        } else {
            PackView::EditPac
        }),
{
    if count == 0 {
        PackView::PrepareQuestionsTopic
    } else {
        PackView::EditPac
    }
}

/// After a question is edited: the complete pack (stage 1) or the pack's
/// questions.
pub fn re_rec_question_db(stage: i64) -> (v: PackView)
    ensures
        v == (if stage == 1 {
            PackView::QuestionsPacDone
        } else {
            PackView::EditPac
        }),
{
    if stage == 1 {
        PackView::QuestionsPacDone
    } else {
        PackView::EditPac
    }
}

/// The edit page of question `question_id`, filled with what the database
/// holds of it; `None` when it holds nothing.
pub fn edit_pac_que(
    found: Option<AutofillQuestionDB>,
    header: String,
    questions_pac_id: i64,
    pac_name: String,
    topic: String,
    question_id: i32,
) -> (page: Option<AutofillQuestion>)
    ensures
        found is None ==> page is None,
        found matches Some(q) ==> (page matches Some(p) && p.header == header && p.header_pac_id
            == questions_pac_id && p.header_pac_name == pac_name && p.header_topic_five_questions == topic
            && p.header_question_id == question_id && p.question == q.question && p.answer == q.answer
            && p.price_question == q.price_question),
{
    match found {
        None => None,
        Some(q) => Some(
            AutofillQuestion {
                header,
                header_pac_id: questions_pac_id,
                header_pac_name: pac_name,
                header_topic_five_questions: topic,
                header_question_id: question_id,
                question: q.question,
                answer: q.answer,
                price_question: q.price_question,
            },
        ),
    }
}

/// The question as a new question of pack `questions_pac_id`, from the
/// organiser's form.
pub fn question_from_form(user_id: i64, questions_pac_id: i64, form: QuestionForm, player_id: Option<i64>, player_question_id: Option<i64>) -> (q: NewQuestion)
    ensures
        q.user_id == user_id && q.questions_pac_id == questions_pac_id,
        q.topic_five_questions == form.topic_five_questions && q.question == form.question && q.answer
            == form.answer && q.price_question == form.price_question,
        q.player_id == player_id && q.player_question_id == player_question_id,
{
    NewQuestion {
        user_id,
        questions_pac_id,
        topic_five_questions: form.topic_five_questions,
        question: form.question,
        answer: form.answer,
        price_question: form.price_question,
        player_id,
        player_question_id,
    }
}

} // verus!
