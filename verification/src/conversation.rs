//! What the bot answers in each step of the conversation: getting to know a
//! new player, and taking questions that players send for the games.

use vstd::prelude::*;
use vstd::string::*;
use crate::dialogue::State;
use crate::text::{views, decimal, parsed_i64, parse_i64, push_decimal};

verus! {

/// Whether `c` is alphabetic in Unicode's sense (`char::is_alphabetic`).
pub uninterp spec fn is_alphabetic(c: char) -> bool;

/// Calls `char::is_alphabetic`, whose result depends on the character alone
/// (the Unicode `Alphabetic` property); the contract names that result.
#[verifier::external_body]
fn char_is_alphabetic(c: char) -> (r: bool)
    ensures
        r == is_alphabetic(c),
{
    c.is_alphabetic()
}

pub open spec fn all_alphabetic(s: Seq<char>) -> bool {
    forall|k: int| 0 <= k < s.len() ==> is_alphabetic(#[trigger] s[k])
}

fn text_all_alphabetic(s: &str) -> (r: bool)
    ensures
        r == all_alphabetic(s@),
{
    let n = s.unicode_len();
    let mut i: usize = 0;
    while i < n
        invariant
            n == s@.len(),
            i <= n,
            forall|k: int| 0 <= k < i ==> is_alphabetic(#[trigger] s@[k]),
        decreases n - i,
    {
        let c = s.get_char(i);
        if !char_is_alphabetic(c) {
            return false;
        }
        i = i + 1;
    }
    true
}

/// The bot's answer to a message: the messages it sends back, and the state
/// the conversation moves to (`None`: the state stays).
pub struct Reply {
    pub messages: Vec<String>,
    pub next: Option<State>,
}

pub open spec fn ask_first_name() -> Seq<char> {
    "Напишите своё ИМЯ.Ваше ИМЯ будет использоваться при обращении ведущего к Вам."@
}

pub open spec fn ask_patronymic() -> Seq<char> {
    "Напишите своё ОТЧЕСТВО.Ваше ОТЧЕСТВО будет использоваться при обращении ведущего к Вам."@
}

pub open spec fn ask_last_name() -> Seq<char> {
    "Напишите свою ФАМИЛИЮ.Ваша ФАМИЛИЯ будет использоваться при обращении ведущего к Вам."@
}

pub open spec fn ask_location() -> Seq<char> {
    "В каком ГОРОДЕ Вы играете? Необходимо указать официальное название Вашего города."@
}

pub open spec fn ask_phone() -> Seq<char> {
    "Укажите Ваш НОМЕР ТЕЛЕФОНА в формате 89*********,\nон необходим для связи организаторов с Вами в случае форс-мажора.\nЕсли Вы не хотите указывать свой номер телефона, то введите любые 11 цифр, начиная с 1."@
}

pub open spec fn letters_only() -> Seq<char> {
    "Отправляй только буквы."@
}

/// The messages of a step that takes a name-like answer, and whether the
/// answer is taken: it is when it is text made of letters only.
pub open spec fn name_step(text: Option<Seq<char>>, refusal: Seq<char>, again: Seq<char>, next: Seq<char>) -> (
    Seq<Seq<char>>,
    bool,
) {
    match text {
        None => (seq![letters_only(), again], false),
        Some(t) => if all_alphabetic(t) {
            (seq![next], true)
        } else {
            (seq![refusal, again], false)
        },
    }
}

pub open spec fn opt_view(text: Option<&str>) -> Option<Seq<char>> {
    match text {
        Some(t) => Some(t@),
        None => None,
    }
}

fn name_step_exec(text: Option<&str>, refusal: &str, again: &str, next: &str) -> (r: (Vec<String>, bool))
    ensures
        (views(r.0@), r.1) == name_step(opt_view(text), refusal@, again@, next@),
{
    match text {
        None => {
            let v = vec![String::from_str("Отправляй только буквы."), String::from_str(again)];
            proof {
                reveal_strlit("Отправляй только буквы.");
            }
            assert(views(v@) =~= seq![letters_only(), again@]);
            (v, false)
        },
        Some(t) => {
            if text_all_alphabetic(t) {
                let v = vec![String::from_str(next)];
                assert(views(v@) =~= seq![next@]);
                (v, true)
            } else {
                let v = vec![String::from_str(refusal), String::from_str(again)];
                assert(views(v@) =~= seq![refusal@, again@]);
                (v, false)
            }
        },
    }
}

/// The player's first name: letters only; then the bot asks for the
/// patronymic.
pub fn receive_player_real_first_name(text: Option<&str>) -> (r: Reply)
    ensures
        ({
            let step = name_step(
                opt_view(text),
                "Ваше имя должно содержать только буквы."@,
                ask_first_name(),
                ask_patronymic(),
            );
            &&& views(r.messages@) == step.0
            &&& step.1 ==> (r.next matches Some(State::ReceivePlayerRealPatronymic { player_real_first_name })
                && player_real_first_name@ == text.unwrap()@)
            &&& !step.1 ==> r.next is None
        }),
{
    let (messages, taken) = name_step_exec(
        text,
        "Ваше имя должно содержать только буквы.",
        "Напишите своё ИМЯ.Ваше ИМЯ будет использоваться при обращении ведущего к Вам.",
        "Напишите своё ОТЧЕСТВО.Ваше ОТЧЕСТВО будет использоваться при обращении ведущего к Вам.",
    );
    let next = if taken {
        match text {
            Some(t) => Some(State::ReceivePlayerRealPatronymic { player_real_first_name: String::from_str(t) }),
            None => None,
        }
    } else {
        None
    };
    Reply { messages, next }
}

/// The patronymic: letters only; then the bot asks for the last name.
pub fn receive_player_real_patronymic(player_real_first_name: String, text: Option<&str>) -> (r: Reply)
    ensures
        ({
            let step = name_step(
                opt_view(text),
                "Ваше отчество должно содержать только буквы."@,
                ask_patronymic(),
                ask_last_name(),
            );
            &&& views(r.messages@) == step.0
            &&& step.1 ==> (r.next matches Some(
                State::ReceivePlayerRealLastName { player_real_first_name: f, player_real_patronymic },
            ) && f == player_real_first_name && player_real_patronymic@ == text.unwrap()@)
            &&& !step.1 ==> r.next is None
        }),
{
    let (messages, taken) = name_step_exec(
        text,
        "Ваше отчество должно содержать только буквы.",
        "Напишите своё ОТЧЕСТВО.Ваше ОТЧЕСТВО будет использоваться при обращении ведущего к Вам.",
        "Напишите свою ФАМИЛИЮ.Ваша ФАМИЛИЯ будет использоваться при обращении ведущего к Вам.",
    );
    let next = if taken {
        match text {
            Some(t) => Some(
                State::ReceivePlayerRealLastName { player_real_first_name, player_real_patronymic: String::from_str(t) },
            ),
            None => None,
        }
    } else {
        None
    };
    Reply { messages, next }
}

/// The last name: letters only; then the bot asks for the city.
pub fn receive_player_real_last_name(
    player_real_first_name: String,
    player_real_patronymic: String,
    text: Option<&str>,
) -> (r: Reply)
    ensures
        ({
            let step = name_step(
                opt_view(text),
                "Ваша фамилия должна содержать только буквы."@,
                ask_last_name(),
                ask_location(),
            );
            &&& views(r.messages@) == step.0
            &&& step.1 ==> (r.next matches Some(
                State::ReceivePlayerRealLocation {
                    player_real_first_name: f,
                    player_real_patronymic: p,
                    player_real_last_name,
                },
            ) && f == player_real_first_name && p == player_real_patronymic && player_real_last_name@
                == text.unwrap()@)
            &&& !step.1 ==> r.next is None
        }),
{
    let (messages, taken) = name_step_exec(
        text,
        "Ваша фамилия должна содержать только буквы.",
        "Напишите свою ФАМИЛИЮ.Ваша ФАМИЛИЯ будет использоваться при обращении ведущего к Вам.",
        "В каком ГОРОДЕ Вы играете? Необходимо указать официальное название Вашего города.",
    );
    let next = if taken {
        match text {
            Some(t) => Some(
                State::ReceivePlayerRealLocation {
                    player_real_first_name,
                    player_real_patronymic,
                    player_real_last_name: String::from_str(t),
                },
            ),
            None => None,
        }
    } else {
        None
    };
    Reply { messages, next }
}

/// The city: letters only; then the bot asks for the phone number.
pub fn receive_player_real_location(
    player_real_first_name: String,
    player_real_patronymic: String,
    player_real_last_name: String,
    text: Option<&str>,
) -> (r: Reply)
    ensures
        ({
            let step = name_step(
                opt_view(text),
                "Ваш город должен содержать только буквы"@,
                ask_location(),
                ask_phone(),
            );
            &&& views(r.messages@) == step.0
            &&& step.1 ==> (r.next matches Some(
                State::ReceivePlayerPhoneNumber {
                    player_real_first_name: f,
                    player_real_patronymic: p,
                    player_real_last_name: l,
                    player_real_location,
                },
            ) && f == player_real_first_name && p == player_real_patronymic && l == player_real_last_name
                && player_real_location@ == text.unwrap()@)
            &&& !step.1 ==> r.next is None
        }),
{
    let (messages, taken) = name_step_exec(
        text,
        "Ваш город должен содержать только буквы",
        "В каком ГОРОДЕ Вы играете? Необходимо указать официальное название Вашего города.",
        "Укажите Ваш НОМЕР ТЕЛЕФОНА в формате 89*********,\nон необходим для связи организаторов с Вами в случае форс-мажора.\nЕсли Вы не хотите указывать свой номер телефона, то введите любые 11 цифр, начиная с 1.",
    );
    let next = if taken {
        match text {
            Some(t) => Some(
                State::ReceivePlayerPhoneNumber {
                    player_real_first_name,
                    player_real_patronymic,
                    player_real_last_name,
                    player_real_location: String::from_str(t),
                },
            ),
            None => None,
        }
    } else {
        None
    };
    Reply { messages, next }
}

/// A player's answers to the bot's questions when getting acquainted.
pub struct RealPlayerData {
    pub player_real_first_name: String,
    pub player_real_patronymic: String,
    pub player_real_last_name: String,
    pub player_real_location: String,
    pub player_real_phone_number: i64,
}

pub open spec fn is_ascii_digit(c: char) -> bool {
    '0' <= c && c <= '9'
}

/// A phone number is eleven ASCII digits.
pub open spec fn phone_shape(t: Seq<char>) -> bool {
    &&& t.len() == 11
    &&& forall|k: int| 0 <= k < t.len() ==> is_ascii_digit(#[trigger] t[k])
}

/// The summary the player confirms.
pub open spec fn registration_report(first: Seq<char>, patronymic: Seq<char>, last: Seq<char>, location: Seq<char>, phone: int) -> Seq<char> {
    "Имя: "@ + first + "\nОтчество: "@ + patronymic + "\nФамилия: "@ + last + "\nЛокация: "@ + location
        + "\nТелефон: "@ + decimal(phone)
}

/// What the phone number step gives: the messages, and the accepted data.
pub struct PhoneReply {
    pub messages: Vec<String>,
    pub accepted: Option<RealPlayerData>,
}

fn phone_shaped(t: &str) -> (r: bool)
    ensures
        r == phone_shape(t@),
{
    let n = t.unicode_len();
    if n != 11 {
        return false;
    }
    let mut i: usize = 0;
    while i < n
        invariant
            n == t@.len(),
            i <= n,
            forall|k: int| 0 <= k < i ==> is_ascii_digit(#[trigger] t@[k]),
        decreases n - i,
    {
        let c = t.get_char(i);
        if !('0' <= c && c <= '9') {
            return false;
        }
        i = i + 1;
    }
    true
}

/// The phone number: it may not start with `+` and must be eleven digits.
/// Accepted, it closes the acquaintance: the bot shows the summary with the
/// buttons "Подтверждаю" / "Повторить" and waits for the confirmation.
pub fn receive_player_phone_number(
    player_real_first_name: String,
    player_real_patronymic: String,
    player_real_last_name: String,
    player_real_location: String,
    text: Option<&str>,
) -> (r: PhoneReply)
    ensures
        text is None ==> views(r.messages@) == seq!["Отправляй только цифры."@] && r.accepted is None,
        text matches Some(t) && t@.len() > 0 && t@[0] == '+' ==> views(r.messages@) == seq![
            "Номер телефона не может начинаться с символа '+'."@,
        ] && r.accepted is None,
        text matches Some(t) && !(t@.len() > 0 && t@[0] == '+') && !phone_shape(t@) ==> views(r.messages@)
            == seq!["Номер телефона должен состоять из 11 цифр."@] && r.accepted is None,
        text matches Some(t) && phone_shape(t@) && parsed_i64(t@) is None ==> views(r.messages@) == seq![
            "Введите только цифры в формате 89*********."@,
        ] && r.accepted is None,
        text matches Some(t) && phone_shape(t@) && parsed_i64(t@) is Some ==> ({
            let phone = parsed_i64(text.unwrap()@).unwrap();
            &&& views(r.messages@) == seq![
                registration_report(
                    player_real_first_name@,
                    player_real_patronymic@,
                    player_real_last_name@,
                    player_real_location@,
                    phone,
                ),
            ]
            &&& r.accepted matches Some(d) && d.player_real_first_name == player_real_first_name
                && d.player_real_patronymic == player_real_patronymic && d.player_real_last_name
                == player_real_last_name && d.player_real_location == player_real_location
                && d.player_real_phone_number == phone
        }),
{
    match text {
        None => {
            let v = vec![String::from_str("Отправляй только цифры.")];
            assert(views(v@) =~= seq!["Отправляй только цифры."@]);
            PhoneReply { messages: v, accepted: None }
        },
        Some(t) => {
            let starts_with_plus = t.unicode_len() > 0 && t.get_char(0) == '+';
            if starts_with_plus {
                let v = vec![String::from_str("Номер телефона не может начинаться с символа '+'.")];
                assert(views(v@) =~= seq!["Номер телефона не может начинаться с символа '+'."@]);
                return PhoneReply { messages: v, accepted: None };
            }
            if !phone_shaped(t) {
                let v = vec![String::from_str("Номер телефона должен состоять из 11 цифр.")];
                assert(views(v@) =~= seq!["Номер телефона должен состоять из 11 цифр."@]);
                return PhoneReply { messages: v, accepted: None };
            }
            match parse_i64(t) {
                None => {
                    let v = vec![String::from_str("Введите только цифры в формате 89*********.")];
                    assert(views(v@) =~= seq!["Введите только цифры в формате 89*********."@]);
                    PhoneReply { messages: v, accepted: None }
                },
                Some(phone) => {
                    let mut report = String::from_str("Имя: ");
                    report.append(player_real_first_name.as_str());
                    report.append("\nОтчество: ");
                    report.append(player_real_patronymic.as_str());
                    report.append("\nФамилия: ");
                    report.append(player_real_last_name.as_str());
                    report.append("\nЛокация: ");
                    report.append(player_real_location.as_str());
                    report.append("\nТелефон: ");
                    push_decimal(&mut report, phone);
                    let v = vec![report];
                    assert(views(v@) =~= seq![
                        registration_report(
                            player_real_first_name@,
                            player_real_patronymic@,
                            player_real_last_name@,
                            player_real_location@,
                            phone as int,
                        ),
                    ]);
                    PhoneReply {
                        messages: v,
                        accepted: Some(
                            RealPlayerData {
                                player_real_first_name,
                                player_real_patronymic,
                                player_real_last_name,
                                player_real_location,
                                player_real_phone_number: phone,
                            },
                        ),
                    }
                },
            }
        },
    }
}

/// The texts a player has sent so far for five questions of one topic,
/// in the order asked: the topic, then each question and its answer. `None`
/// for a state that is not collecting them.
pub open spec fn topic_fields(s: State) -> Option<Seq<String>> {
    match s {
        State::ReceiveFirstQuestionFromPlayer { player_topic_multi_question: t } => Some(seq![t]),
        State::ReceiveFirstAnswerQuestionFromPlayer { player_topic_multi_question: t, player_first_question: q1 } => Some(
            seq![t, q1],
        ),
        State::ReceiveSecondQuestionFromPlayer {
            player_topic_multi_question: t,
            player_first_question: q1,
            player_first_answer_question: a1,
        } => Some(seq![t, q1, a1]),
        State::ReceiveSecondAnswerQuestionFromPlayer {
            player_topic_multi_question: t,
            player_first_question: q1,
            player_first_answer_question: a1,
            player_second_question: q2,
        } => Some(seq![t, q1, a1, q2]),
        State::ReceiveThirdQuestionFromPlayer {
            player_topic_multi_question: t,
            player_first_question: q1,
            player_first_answer_question: a1,
            player_second_question: q2,
            player_second_answer_question: a2,
        } => Some(seq![t, q1, a1, q2, a2]),
        State::ReceiveThirdAnswerQuestionFromPlayer {
            player_topic_multi_question: t,
            player_first_question: q1,
            player_first_answer_question: a1,
            player_second_question: q2,
            player_second_answer_question: a2,
            player_third_question: q3,
        } => Some(seq![t, q1, a1, q2, a2, q3]),
        State::ReceiveFourthQuestionFromPlayer {
            player_topic_multi_question: t,
            player_first_question: q1,
            player_first_answer_question: a1,
            player_second_question: q2,
            player_second_answer_question: a2,
            player_third_question: q3,
            player_third_answer_question: a3,
        } => Some(seq![t, q1, a1, q2, a2, q3, a3]),
        State::ReceiveFourthAnswerQuestionFromPlayer {
            player_topic_multi_question: t,
            player_first_question: q1,
            player_first_answer_question: a1,
            player_second_question: q2,
            player_second_answer_question: a2,
            player_third_question: q3,
            player_third_answer_question: a3,
            player_fourth_question: q4,
        } => Some(seq![t, q1, a1, q2, a2, q3, a3, q4]),
        State::ReceiveFifthQuestionFromPlayer {
            player_topic_multi_question: t,
            player_first_question: q1,
            player_first_answer_question: a1,
            player_second_question: q2,
            player_second_answer_question: a2,
            player_third_question: q3,
            player_third_answer_question: a3,
            player_fourth_question: q4,
            player_fourth_answer_question: a4,
        } => Some(seq![t, q1, a1, q2, a2, q3, a3, q4, a4]),
        State::ReceiveFifthAnswerQuestionFromPlayer {
            player_topic_multi_question: t,
            player_first_question: q1,
            player_first_answer_question: a1,
            player_second_question: q2,
            player_second_answer_question: a2,
            player_third_question: q3,
            player_third_answer_question: a3,
            player_fourth_question: q4,
            player_fourth_answer_question: a4,
            player_fifth_question: q5,
        } => Some(seq![t, q1, a1, q2, a2, q3, a3, q4, a4, q5]),
        _ => None,
    }
}

/// What the bot asks for after the `k`-th text of a topic (`1 <= k <= 9`).
pub open spec fn topic_prompt(k: int) -> Seq<char> {
    if k == 1 {
        "Напишите первый вопрос."@
    } else if k == 2 {
        "Напишите ответ на первый вопрос."@
    } else if k == 3 {
        "Напишите второй вопрос."@
    } else if k == 4 {
        "Напишите ответ на второй вопрос."@
    } else if k == 5 {
        "Напишите третий вопрос."@
    } else if k == 6 {
        "Напишите ответ на третий вопрос."@
    } else if k == 7 {
        "Напишите четвёртый вопрос."@
    } else if k == 8 {
        "Напишите ответ на четвёртый вопрос."@
    } else if k == 9 {
        "Напишите пятый вопрос."@
    } else {
        "Напишите ответ на пятый вопрос."@
    }
}

/// What the bot says when a message holds no text, for a state that
/// already holds `k` texts of a topic (the wording differs slightly from
/// step to step).
pub open spec fn text_only(k: int) -> Seq<char> {
    if k == 1 {
        "Отправляте только текст."@
    } else if k == 8 {
        "Отправляйте только текст"@
    } else {
        "Отправляйте только текст."@
    }
}

pub open spec fn single_accepted() -> Seq<char> {
    "Ваш вопрос принят.\nПосле модерации он будет использован в одной из игр.\nБольшое Вам спасибо!"@
}

pub open spec fn topic_accepted() -> Seq<char> {
    "Ваши вопросы приняты.\nПосле модерации они будут использованы в одной из игр.\nБольшое Вам спасибо!"@
}

/// A question sent by a player, with its answer.
pub struct PlayerSingleQuestion {
    pub player_single_question: String,
    pub player_single_answer_question: String,
}

/// A topic of five questions sent by a player: the topic, then each
/// question followed by its answer.
pub struct UserMultiQuestion {
    pub texts: Vec<String>,
}

/// The bot's answer to a message while a player sends questions.
pub struct QuestionReply {
    pub messages: Vec<String>,
    pub next: Option<State>,
    pub single: Option<PlayerSingleQuestion>,
    pub multi: Option<UserMultiQuestion>,
}

fn reply_text(s: &str) -> (v: Vec<String>)
    ensures
        views(v@) == seq![s@],
{
    let v = vec![String::from_str(s)];
    assert(views(v@) =~= seq![s@]);
    v
}

fn topic_prompt_exec(k: usize) -> (s: &'static str)
    requires
        1 <= k <= 10,
    ensures
        s@ == topic_prompt(k as int),
{
    if k == 1 {
        "Напишите первый вопрос."
    } else if k == 2 {
        "Напишите ответ на первый вопрос."
    } else if k == 3 {
        "Напишите второй вопрос."
    } else if k == 4 {
        "Напишите ответ на второй вопрос."
    } else if k == 5 {
        "Напишите третий вопрос."
    } else if k == 6 {
        "Напишите ответ на третий вопрос."
    } else if k == 7 {
        "Напишите четвёртый вопрос."
    } else if k == 8 {
        "Напишите ответ на четвёртый вопрос."
    } else if k == 9 {
        "Напишите пятый вопрос."
    } else {
        "Напишите ответ на пятый вопрос."
    }
}

fn text_only_exec(k: usize) -> (s: &'static str)
    ensures
        s@ == text_only(k as int),
{
    if k == 1 {
        "Отправляте только текст."
    } else if k == 8 {
        "Отправляйте только текст"
    } else {
        "Отправляйте только текст."
    }
}

/// The state that holds the topic texts `f` (one to ten of them).
fn topic_state(f: Vec<String>) -> (s: State)
    requires
        1 <= f@.len() <= 10,
    ensures
        topic_fields(s) == Some(f@),
{
    let mut f = f;
    let n = f.len();
    let ghost fs = f@;
    // the fields are taken from the back
    if n == 1 {
        let t = f.pop().unwrap();
        assert(fs =~= seq![t]);
        State::ReceiveFirstQuestionFromPlayer { player_topic_multi_question: t }
    } else if n == 2 {
        let q1 = f.pop().unwrap();
        let t = f.pop().unwrap();
        assert(fs =~= seq![t, q1]);
        State::ReceiveFirstAnswerQuestionFromPlayer { player_topic_multi_question: t, player_first_question: q1 }
    } else if n == 3 {
        let a1 = f.pop().unwrap();
        let q1 = f.pop().unwrap();
        let t = f.pop().unwrap();
        assert(fs =~= seq![t, q1, a1]);
        State::ReceiveSecondQuestionFromPlayer {
            player_topic_multi_question: t,
            player_first_question: q1,
            player_first_answer_question: a1,
        }
    } else if n == 4 {
        let q2 = f.pop().unwrap();
        let a1 = f.pop().unwrap();
        let q1 = f.pop().unwrap();
        let t = f.pop().unwrap();
        assert(fs =~= seq![t, q1, a1, q2]);
        State::ReceiveSecondAnswerQuestionFromPlayer {
            player_topic_multi_question: t,
            player_first_question: q1,
            player_first_answer_question: a1,
            player_second_question: q2,
        }
    } else if n == 5 {
        let a2 = f.pop().unwrap();
        let q2 = f.pop().unwrap();
        let a1 = f.pop().unwrap();
        let q1 = f.pop().unwrap();
        let t = f.pop().unwrap();
        assert(fs =~= seq![t, q1, a1, q2, a2]);
        State::ReceiveThirdQuestionFromPlayer {
            player_topic_multi_question: t,
            player_first_question: q1,
            player_first_answer_question: a1,
            player_second_question: q2,
            player_second_answer_question: a2,
        }
    } else if n == 6 {
        let q3 = f.pop().unwrap();
        let a2 = f.pop().unwrap();
        let q2 = f.pop().unwrap();
        let a1 = f.pop().unwrap();
        let q1 = f.pop().unwrap();
        let t = f.pop().unwrap();
        assert(fs =~= seq![t, q1, a1, q2, a2, q3]);
        State::ReceiveThirdAnswerQuestionFromPlayer {
            player_topic_multi_question: t,
            player_first_question: q1,
            player_first_answer_question: a1,
            player_second_question: q2,
            player_second_answer_question: a2,
            player_third_question: q3,
        }
    } else if n == 7 {
        let a3 = f.pop().unwrap();
        let q3 = f.pop().unwrap();
        let a2 = f.pop().unwrap();
        let q2 = f.pop().unwrap();
        let a1 = f.pop().unwrap();
        let q1 = f.pop().unwrap();
        let t = f.pop().unwrap();
        assert(fs =~= seq![t, q1, a1, q2, a2, q3, a3]);
        State::ReceiveFourthQuestionFromPlayer {
            player_topic_multi_question: t,
            player_first_question: q1,
            player_first_answer_question: a1,
            player_second_question: q2,
            player_second_answer_question: a2,
            player_third_question: q3,
            player_third_answer_question: a3,
        }
    } else if n == 8 {
        let q4 = f.pop().unwrap();
        let a3 = f.pop().unwrap();
        let q3 = f.pop().unwrap();
        let a2 = f.pop().unwrap();
        let q2 = f.pop().unwrap();
        let a1 = f.pop().unwrap();
        let q1 = f.pop().unwrap();
        let t = f.pop().unwrap();
        assert(fs =~= seq![t, q1, a1, q2, a2, q3, a3, q4]);
        State::ReceiveFourthAnswerQuestionFromPlayer {
            player_topic_multi_question: t,
            player_first_question: q1,
            player_first_answer_question: a1,
            player_second_question: q2,
            player_second_answer_question: a2,
            player_third_question: q3,
            player_third_answer_question: a3,
            player_fourth_question: q4,
        }
    } else if n == 9 {
        let a4 = f.pop().unwrap();
        let q4 = f.pop().unwrap();
        let a3 = f.pop().unwrap();
        let q3 = f.pop().unwrap();
        let a2 = f.pop().unwrap();
        let q2 = f.pop().unwrap();
        let a1 = f.pop().unwrap();
        let q1 = f.pop().unwrap();
        let t = f.pop().unwrap();
        assert(fs =~= seq![t, q1, a1, q2, a2, q3, a3, q4, a4]);
        State::ReceiveFifthQuestionFromPlayer {
            player_topic_multi_question: t,
            player_first_question: q1,
            player_first_answer_question: a1,
            player_second_question: q2,
            player_second_answer_question: a2,
            player_third_question: q3,
            player_third_answer_question: a3,
            player_fourth_question: q4,
            player_fourth_answer_question: a4,
        }
    } else {
        let q5 = f.pop().unwrap();
        let a4 = f.pop().unwrap();
        let q4 = f.pop().unwrap();
        let a3 = f.pop().unwrap();
        let q3 = f.pop().unwrap();
        let a2 = f.pop().unwrap();
        let q2 = f.pop().unwrap();
        let a1 = f.pop().unwrap();
        let q1 = f.pop().unwrap();
        let t = f.pop().unwrap();
        assert(fs =~= seq![t, q1, a1, q2, a2, q3, a3, q4, a4, q5]);
        State::ReceiveFifthAnswerQuestionFromPlayer {
            player_topic_multi_question: t,
            player_first_question: q1,
            player_first_answer_question: a1,
            player_second_question: q2,
            player_second_answer_question: a2,
            player_third_question: q3,
            player_third_answer_question: a3,
            player_fourth_question: q4,
            player_fourth_answer_question: a4,
            player_fifth_question: q5,
        }
    }
}

/// The topic texts held by a state, as a list.
fn topic_fields_of(s: State) -> (f: Option<Vec<String>>)
    ensures
        match topic_fields(s) {
            Some(fs) => f matches Some(v) && v@ == fs,
            None => f is None,
        },
{
    match s {
        State::ReceiveFirstQuestionFromPlayer { player_topic_multi_question: t } => Some(vec![t]),
        State::ReceiveFirstAnswerQuestionFromPlayer { player_topic_multi_question: t, player_first_question: q1 } => Some(
            vec![t, q1],
        ),
        State::ReceiveSecondQuestionFromPlayer {
            player_topic_multi_question: t,
            player_first_question: q1,
            player_first_answer_question: a1,
        } => Some(vec![t, q1, a1]),
        State::ReceiveSecondAnswerQuestionFromPlayer {
            player_topic_multi_question: t,
            player_first_question: q1,
            player_first_answer_question: a1,
            player_second_question: q2,
        } => Some(vec![t, q1, a1, q2]),
        State::ReceiveThirdQuestionFromPlayer {
            player_topic_multi_question: t,
            player_first_question: q1,
            player_first_answer_question: a1,
            player_second_question: q2,
            player_second_answer_question: a2,
        } => Some(vec![t, q1, a1, q2, a2]),
        State::ReceiveThirdAnswerQuestionFromPlayer {
            player_topic_multi_question: t,
            player_first_question: q1,
            player_first_answer_question: a1,
            player_second_question: q2,
            player_second_answer_question: a2,
            player_third_question: q3,
        } => Some(vec![t, q1, a1, q2, a2, q3]),
        State::ReceiveFourthQuestionFromPlayer {
            player_topic_multi_question: t,
            player_first_question: q1,
            player_first_answer_question: a1,
            player_second_question: q2,
            player_second_answer_question: a2,
            player_third_question: q3,
            player_third_answer_question: a3,
        } => Some(vec![t, q1, a1, q2, a2, q3, a3]),
        State::ReceiveFourthAnswerQuestionFromPlayer {
            player_topic_multi_question: t,
            player_first_question: q1,
            player_first_answer_question: a1,
            player_second_question: q2,
            player_second_answer_question: a2,
            player_third_question: q3,
            player_third_answer_question: a3,
            player_fourth_question: q4,
        } => Some(vec![t, q1, a1, q2, a2, q3, a3, q4]),
        State::ReceiveFifthQuestionFromPlayer {
            player_topic_multi_question: t,
            player_first_question: q1,
            player_first_answer_question: a1,
            player_second_question: q2,
            player_second_answer_question: a2,
            player_third_question: q3,
            player_third_answer_question: a3,
            player_fourth_question: q4,
            player_fourth_answer_question: a4,
        } => Some(vec![t, q1, a1, q2, a2, q3, a3, q4, a4]),
        State::ReceiveFifthAnswerQuestionFromPlayer {
            player_topic_multi_question: t,
            player_first_question: q1,
            player_first_answer_question: a1,
            player_second_question: q2,
            player_second_answer_question: a2,
            player_third_question: q3,
            player_third_answer_question: a3,
            player_fourth_question: q4,
            player_fourth_answer_question: a4,
            player_fifth_question: q5,
        } => Some(vec![t, q1, a1, q2, a2, q3, a3, q4, a4, q5]),
        _ => None,
    }
}

/// A player sends the texts of questions for the games. A single question
/// takes the question and then its answer; five questions of one topic take
/// the topic and then five questions, each followed by its answer. Each
/// text moves the conversation one step; the last one hands the questions
/// over and ends the exchange. A message without text changes nothing.
pub fn receive_question_text(state: State, text: Option<&str>) -> (r: QuestionReply)
    requires
        topic_fields(state) is Some || state is ReceiveSingleQuestionFromPlayer
            || state is ReceiveSingleAnswerQuestionFromPlayer || state is ReceiveTopicMultiQuestionFromPlayer,
    ensures
        text is None ==> r.next is None && r.single is None && r.multi is None && views(r.messages@)
            == seq![
            text_only(
                match topic_fields(state) {
                    Some(f) => f.len() as int,
                    None => 0,
                },
            ),
        ],
        text is Some && state is ReceiveSingleQuestionFromPlayer ==> views(r.messages@) == seq![
            "Напишите ответ на Ваш вопрос."@,
        ] && r.single is None && r.multi is None && (r.next matches Some(
            State::ReceiveSingleAnswerQuestionFromPlayer { player_single_question },
        ) && player_single_question@ == text.unwrap()@),
        text is Some && state is ReceiveSingleAnswerQuestionFromPlayer ==> views(r.messages@) == seq![
            single_accepted(),
        ] && r.multi is None && (r.next matches Some(State::RegistrationComplete)) && (r.single matches Some(q)
            && q.player_single_question == state->player_single_question && q.player_single_answer_question@
            == text.unwrap()@),
        text is Some && state is ReceiveTopicMultiQuestionFromPlayer ==> views(r.messages@) == seq![
            topic_prompt(1),
        ] && r.single is None && r.multi is None && (r.next matches Some(s) && topic_fields(s) matches Some(f)
            && f.len() == 1 && f[0]@ == text.unwrap()@),
        text is Some && topic_fields(state) is Some && topic_fields(state).unwrap().len() < 10 ==> ({
            let f = topic_fields(state).unwrap();
            &&& views(r.messages@) == seq![topic_prompt(f.len() as int + 1)]
            &&& r.single is None && r.multi is None
            &&& r.next matches Some(s) && topic_fields(s) matches Some(g) && g.len() == f.len() + 1
                && g.take(f.len() as int) == f && g.last()@ == text.unwrap()@
        }),
        text is Some && topic_fields(state) is Some && topic_fields(state).unwrap().len() == 10 ==> ({
            let f = topic_fields(state).unwrap();
            &&& views(r.messages@) == seq![topic_accepted()]
            &&& r.single is None
            &&& r.next matches Some(State::RegistrationComplete)
            &&& r.multi matches Some(m) && m.texts@.len() == 11 && m.texts@.take(10) == f && m.texts@.last()@
                == text.unwrap()@
        }),
{
    let ghost fields = topic_fields(state);
    let ghost k: int = match fields {
        Some(f) => f.len() as int,
        None => 0,
    };
    match text {
        None => {
            let n: usize = match topic_fields_of(state) {
                Some(v) => v.len(),
                None => 0,
            };
            QuestionReply { messages: reply_text(text_only_exec(n)), next: None, single: None, multi: None }
        },
        Some(t) => {
            match state {
                State::ReceiveSingleQuestionFromPlayer => {
                    QuestionReply {
                        messages: reply_text("Напишите ответ на Ваш вопрос."),
                        next: Some(
                            State::ReceiveSingleAnswerQuestionFromPlayer { player_single_question: String::from_str(t) },
                        ),
                        single: None,
                        multi: None,
                    }
                },
                State::ReceiveSingleAnswerQuestionFromPlayer { player_single_question } => {
                    QuestionReply {
                        messages: reply_text(
                            "Ваш вопрос принят.\nПосле модерации он будет использован в одной из игр.\nБольшое Вам спасибо!",
                        ),
                        next: Some(State::RegistrationComplete),
                        single: Some(
                            PlayerSingleQuestion {
                                player_single_question,
                                player_single_answer_question: String::from_str(t),
                            },
                        ),
                        multi: None,
                    }
                },
                State::ReceiveTopicMultiQuestionFromPlayer => {
                    let f = vec![String::from_str(t)];
                    QuestionReply {
                        messages: reply_text("Напишите первый вопрос."),
                        next: Some(topic_state(f)),
                        single: None,
                        multi: None,
                    }
                },
                other => {
                    let mut f = topic_fields_of(other).unwrap();
                    let n = f.len();
                    let ghost before = f@;
                    f.push(String::from_str(t));
                    assert(f@.take(n as int) =~= before);
                    if n < 10 {
                        QuestionReply {
                            messages: reply_text(topic_prompt_exec(n + 1)),
                            next: Some(topic_state(f)),
                            single: None,
                            multi: None,
                        }
                    } else {
                        QuestionReply {
                            messages: reply_text(
                                "Ваши вопросы приняты.\nПосле модерации они будут использованы в одной из игр.\nБольшое Вам спасибо!",
                            ),
                            next: Some(State::RegistrationComplete),
                            single: None,
                            multi: Some(UserMultiQuestion { texts: f }),
                        }
                    }
                },
            }
        },
    }
}

/// A row of the table of questions sent by players.
pub struct PlayerQuestionRow {
    pub player_topic_five_questions: Option<String>,
    pub player_question: String,
    pub player_answer_question: String,
}

/// The row stores `question` and `answer` under `topic`.
pub open spec fn row_holds(r: PlayerQuestionRow, topic: Seq<char>, question: Seq<char>, answer: Seq<char>) -> bool {
    &&& r.player_topic_five_questions matches Some(t) && t@ == topic
    &&& r.player_question@ == question
    &&& r.player_answer_question@ == answer
}

/// The five rows that five questions of one topic are stored as: each
/// question with its answer, under the topic, in the order sent.
pub fn add_to_multi_question_db(m: &UserMultiQuestion) -> (rows: Vec<PlayerQuestionRow>)
    requires
        m.texts@.len() == 11,
    ensures
        rows@.len() == 5,
        forall|k: int|
            0 <= k < 5 ==> row_holds(#[trigger] rows@[k], m.texts@[0]@, m.texts@[2 * k + 1]@, m.texts@[2 * k + 2]@),
{
    let mut rows: Vec<PlayerQuestionRow> = Vec::new();
    let mut k: usize = 0;
    while k < 5
        invariant
            m.texts@.len() == 11,
            k <= 5,
            rows@.len() == k,
            forall|j: int|
                0 <= j < k ==> row_holds(#[trigger] rows@[j], m.texts@[0]@, m.texts@[2 * j + 1]@, m.texts@[2 * j + 2]@),
        decreases 5 - k,
    {
        let topic = m.texts[0].clone();
        let question = m.texts[2 * k + 1].clone();
        let answer = m.texts[2 * k + 2].clone();
        rows.push(
            PlayerQuestionRow {
                player_topic_five_questions: Some(topic),
                player_question: question,
                player_answer_question: answer,
            },
        );
        k = k + 1;
    }
    rows
}

/// The row a single question is stored as.
pub fn add_to_single_question_db(q: PlayerSingleQuestion) -> (row: PlayerQuestionRow)
    ensures
        row.player_topic_five_questions is None,
        row.player_question == q.player_single_question,
        row.player_answer_question == q.player_single_answer_question,
{
    PlayerQuestionRow {
        player_topic_five_questions: None,
        player_question: q.player_single_question,
        player_answer_question: q.player_single_answer_question,
    }
}

/// What the bot holds of a player.
pub struct PlayerProfile {
    pub player_id: Option<i64>,
    pub chat_id: Option<i64>,
    pub player_real_first_name: Option<String>,
    pub player_real_patronymic: Option<String>,
    pub player_real_last_name: Option<String>,
    pub player_real_location: Option<String>,
    pub player_real_phone_number: Option<i64>,
}

pub open spec fn known(profiles: Seq<PlayerProfile>, id: i64) -> bool {
    exists|k: int| 0 <= k < profiles.len() && #[trigger] profiles[k].player_id == Some(id)
}

pub open spec fn has_name(p: PlayerProfile) -> bool {
    match p.player_real_first_name {
        Some(n) => n@.len() > 0,
        None => false,
    }
}

pub open spec fn named(profiles: Seq<PlayerProfile>, id: i64) -> bool {
    exists|k: int|
        0 <= k < profiles.len() && #[trigger] profiles[k].player_id == Some(id) && has_name(profiles[k])
}

/// What `/start` says: a stranger is greeted and asked for a name, a
/// player who left before giving a name is asked for it again, a known
/// player is sent to the menu.
pub open spec fn start_reply(profiles: Seq<PlayerProfile>, id: i64) -> (Seq<Seq<char>>, State) {
    if !known(profiles, id) {
        (
            seq![
                "🤝"@,
                "Здравствуйте!!!\nМы еще не знакомы. Давайте это исправим!!!"@,
                "Для этого необходимо выполнить несколько простых шагов."@,
                ask_first_name(),
            ],
            State::ReceivePlayerRealFirstName,
        )
    } else if !named(profiles, id) {
        (
            seq!["Как хорошо, что Вы вернулись!\nДавайте продолжим знакомство."@, ask_first_name()],
            State::ReceivePlayerRealFirstName,
        )
    } else {
        (seq!["Выберите команду в 'Меню'."@], State::RegistrationComplete)
    }
}

pub fn start(profiles: &Vec<PlayerProfile>, player_id: i64) -> (r: Reply)
    ensures
        views(r.messages@) == start_reply(profiles@, player_id).0,
        r.next matches Some(s) && s == start_reply(profiles@, player_id).1,
{
    let mut is_known = false;
    let mut is_named = false;
    let mut i: usize = 0;
    while i < profiles.len()
        invariant
            i <= profiles@.len(),
            is_known == exists|k: int| 0 <= k < i && #[trigger] profiles@[k].player_id == Some(player_id),
            is_named == exists|k: int|
                0 <= k < i && #[trigger] profiles@[k].player_id == Some(player_id) && has_name(profiles@[k]),
        decreases profiles.len() - i,
    {
        let p = &profiles[i];
        if p.player_id == Some(player_id) {
            is_known = true;
            match &p.player_real_first_name {
                Some(n) => {
                    if n.as_str().unicode_len() > 0 {
                        is_named = true;
                    }
                },
                None => {},
            }
        }
        i = i + 1;
    }
    if !is_known {
        let v = vec![
            String::from_str("🤝"),
            String::from_str("Здравствуйте!!!\nМы еще не знакомы. Давайте это исправим!!!"),
            String::from_str("Для этого необходимо выполнить несколько простых шагов."),
            String::from_str("Напишите своё ИМЯ.Ваше ИМЯ будет использоваться при обращении ведущего к Вам."),
        ];
        assert(views(v@) =~= start_reply(profiles@, player_id).0);
        Reply { messages: v, next: Some(State::ReceivePlayerRealFirstName) }
    } else if !is_named {
        let v = vec![
            String::from_str("Как хорошо, что Вы вернулись!\nДавайте продолжим знакомство."),
            String::from_str("Напишите своё ИМЯ.Ваше ИМЯ будет использоваться при обращении ведущего к Вам."),
        ];
        assert(views(v@) =~= start_reply(profiles@, player_id).0);
        Reply { messages: v, next: Some(State::ReceivePlayerRealFirstName) }
    } else {
        let v = reply_text("Выберите команду в 'Меню'.");
        Reply { messages: v, next: Some(State::RegistrationComplete) }
    }
}

/// The player's answer to the summary: "Подтверждаю" stores the data,
/// "Повторить" offers `/rename`; both end the acquaintance. The flag tells
/// whether the data is to be stored. Other data is ignored.
pub fn confirmation_of_registration(data: &str) -> (r: Option<(String, bool, State)>)
    ensures
        data@ == "Подтверждаю"@ ==> (r matches Some((t, store, s)) && t@
            == "Я очень рад нашему знакомству!\nНажмите /help для знакомства с моим функционалом."@ && store
            && s is RegistrationComplete),
        data@ == "Повторить"@ ==> (r matches Some((t, store, s)) && t@
            == "😊 Давайте повторим.\nДля повторного ввода своих данных нажмите /rename"@ && !store
            && s is RegistrationComplete),
        data@ != "Подтверждаю"@ && data@ != "Повторить"@ ==> r is None,
{
    proof {
        reveal_strlit("Подтверждаю");
        reveal_strlit("Повторить");
        assert("Подтверждаю"@.len() != "Повторить"@.len());
    }
    if crate::text::same_text(data, "Подтверждаю") {
        Some(
            (
                String::from_str("Я очень рад нашему знакомству!\nНажмите /help для знакомства с моим функционалом."),
                true,
                State::RegistrationComplete,
            ),
        )
    } else if crate::text::same_text(data, "Повторить") {
        Some(
            (
                String::from_str("😊 Давайте повторим.\nДля повторного ввода своих данных нажмите /rename"),
                false,
                State::RegistrationComplete,
            ),
        )
    } else {
        None
    }
}

/// The player's choice between one question and five questions of a topic.
pub fn choice_number_question_from_player(data: &str) -> (r: Option<(String, State)>)
    ensures
        data@ == "Один вопрос"@ ==> (r matches Some((t, s)) && t@ == "Напишите свой вопрос."@
            && s is ReceiveSingleQuestionFromPlayer),
        data@ == "Пять вопросов одной темы"@ ==> (r matches Some((t, s)) && t@ == "Напишите тему вопросов."@
            && s is ReceiveTopicMultiQuestionFromPlayer),
        data@ != "Один вопрос"@ && data@ != "Пять вопросов одной темы"@ ==> r is None,
{
    proof {
        reveal_strlit("Один вопрос");
        reveal_strlit("Пять вопросов одной темы");
        assert("Один вопрос"@.len() != "Пять вопросов одной темы"@.len());
    }
    if crate::text::same_text(data, "Один вопрос") {
        Some((String::from_str("Напишите свой вопрос."), State::ReceiveSingleQuestionFromPlayer))
    } else if crate::text::same_text(data, "Пять вопросов одной темы") {
        Some((String::from_str("Напишите тему вопросов."), State::ReceiveTopicMultiQuestionFromPlayer))
    } else {
        None
    }
}

/// `/question`: the bot offers the two ways to send questions (each
/// button's data is its label) and waits for the choice.
pub fn question() -> (r: (String, Vec<String>, State))
    ensures
        r.0@ == "Отправить вопрос для игры."@,
        views(r.1@) == seq!["Один вопрос"@, "Пять вопросов одной темы"@],
        r.2 is ChoiceNumberQuestionFromPlayer,
{
    let buttons = vec![String::from_str("Один вопрос"), String::from_str("Пять вопросов одной темы")];
    assert(views(buttons@) =~= seq!["Один вопрос"@, "Пять вопросов одной темы"@]);
    (String::from_str("Отправить вопрос для игры."), buttons, State::ChoiceNumberQuestionFromPlayer)
}

/// `/rename`: the acquaintance starts over.
pub fn rename() -> (r: Reply)
    ensures
        views(r.messages@) == seq![
            "Спасибо за предоставление актуальных данных.\nЕсли Вы передумаете - нажмите /start\nПриступим!"@,
            ask_first_name(),
        ],
        r.next matches Some(State::ReceivePlayerRealFirstName),
{
    let v = vec![
        String::from_str("Спасибо за предоставление актуальных данных.\nЕсли Вы передумаете - нажмите /start\nПриступим!"),
        String::from_str("Напишите своё ИМЯ.Ваше ИМЯ будет использоваться при обращении ведущего к Вам."),
    ];
    assert(views(v@) =~= seq![
        "Спасибо за предоставление актуальных данных.\nЕсли Вы передумаете - нажмите /start\nПриступим!"@,
        ask_first_name(),
    ]);
    Reply { messages: v, next: Some(State::ReceivePlayerRealFirstName) }
}

/// A message after the acquaintance that is not a command.
pub fn registration_complete() -> (t: String)
    ensures
        t@ == "Выберите команду в 'Меню'"@,
{
    String::from_str("Выберите команду в 'Меню'")
}

/// A message the current state cannot take.
pub fn invalid_state() -> (t: String)
    ensures
        t@ == "Не удается обработать сообщение.\nНажмите /start. После этого в 'Меню' можно выбрать доступную команду."@,
{
    String::from_str("Не удается обработать сообщение.\nНажмите /start. После этого в 'Меню' можно выбрать доступную команду.")
}

/// What `/playerdata` shows of a player's profile: a line for each field
/// the profile holds.
pub open spec fn profile_text(p: PlayerProfile) -> Seq<char> {
    "Ваши данные:\n"@ + match p.player_real_first_name {
        Some(v) => "Имя: "@ + v@ + "\n"@,
        None => Seq::empty(),
    } + match p.player_real_patronymic {
        Some(v) => "Отчество: "@ + v@ + "\n"@,
        None => Seq::empty(),
    } + match p.player_real_last_name {
        Some(v) => "Фамилия: "@ + v@ + "\n"@,
        None => Seq::empty(),
    } + match p.player_real_location {
        Some(v) => "Локация: "@ + v@ + "\n"@,
        None => Seq::empty(),
    } + match p.player_real_phone_number {
        Some(v) => "Номер телефона: "@ + decimal(v as int) + "\n"@,
        None => Seq::empty(),
    }
}

fn push_field(s: &mut String, label: &str, value: &Option<String>)
    ensures
        final(s)@ == old(s)@ + match value {
            Some(v) => label@ + v@ + "\n"@,
            None => Seq::empty(),
        },
{
    match value {
        Some(v) => {
            s.append(label);
            s.append(v.as_str());
            s.append("\n");
        },
        None => {
            assert(old(s)@ + Seq::<char>::empty() =~= old(s)@);
        },
    }
}

/// `/playerdata`: the profile of the player, the first one that carries the
/// player's id, or a note that none does.
pub fn player_data(profiles: &Vec<PlayerProfile>, player_id: i64) -> (t: String)
    ensures
        !known(profiles@, player_id) ==> t@ == "Ваши данные не найдены."@,
        known(profiles@, player_id) ==> exists|k: int|
            0 <= k < profiles@.len() && profiles@[k].player_id == Some(player_id) && (forall|j: int|
                0 <= j < k ==> #[trigger] profiles@[j].player_id != Some(player_id)) && t@ == profile_text(
                profiles@[k],
            ),
{
    let mut i: usize = 0;
    while i < profiles.len()
        invariant
            i <= profiles@.len(),
            forall|j: int| 0 <= j < i ==> #[trigger] profiles@[j].player_id != Some(player_id),
        decreases profiles.len() - i,
    {
        if profiles[i].player_id == Some(player_id) {
            let p = &profiles[i];
            let mut s = String::from_str("Ваши данные:\n");
            push_field(&mut s, "Имя: ", &p.player_real_first_name);
            push_field(&mut s, "Отчество: ", &p.player_real_patronymic);
            push_field(&mut s, "Фамилия: ", &p.player_real_last_name);
            push_field(&mut s, "Локация: ", &p.player_real_location);
            match p.player_real_phone_number {
                Some(v) => {
                    s.append("Номер телефона: ");
                    push_decimal(&mut s, v);
                    s.append("\n");
                },
                None => {},
            }
            assert(s@ =~= profile_text(profiles@[i as int]));
            return s;
        }
        i = i + 1;
    }
    String::from_str("Ваши данные не найдены.")
}

} // verus!
