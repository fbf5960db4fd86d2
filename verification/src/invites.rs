//! Invitations to announced games in the bot: the list of games a player
//! may register for, the buttons under each, what a press of a button says
//! back, and the notices sent when a seat frees up or a game is cancelled.

use vstd::prelude::*;
use vstd::string::*;
use crate::dialogue::State;
use crate::registration::{
    RegEntry, RegistrationChange, SpectatorRefusal, delete_game_player, player_registration, reg_game_player,
    reg_game_spectator, spectator_registration,
};
use crate::text::{decimal, parsed_i64, parse_i64, push_decimal, split_on, split_on_char, views, same_text,
    lemma_split_joined, lemma_split_single, lemma_decimal_parses_back};

verus! {

/// What a button under an invitation does.
#[derive(Clone, Copy, PartialEq, Eq, Structural, Debug)]
pub enum ButtonKind {
    /// Register as a player.
    Player,
    /// Register as a spectator.
    Spectator,
    /// Withdraw from the game.
    DeletePlayer,
}

pub open spec fn kind_text(k: ButtonKind) -> Seq<char> {
    match k {
        ButtonKind::Player => "player"@,
        ButtonKind::Spectator => "spectator"@,
        ButtonKind::DeletePlayer => "delete_player"@,
    }
}

fn kind_str(k: ButtonKind) -> (s: &'static str)
    ensures
        s@ == kind_text(k),
{
    match k {
        ButtonKind::Player => "player",
        ButtonKind::Spectator => "spectator",
        ButtonKind::DeletePlayer => "delete_player",
    }
}

/// The data a button carries: its kind, the player and the game, separated
/// by colons.
pub open spec fn callback_data(kind: Seq<char>, player_id: int, game_id: int) -> Seq<char> {
    kind + seq![':'] + decimal(player_id) + seq![':'] + decimal(game_id)
}

/// Writes the data of a button of kind `kind` for `player_id` and `game_id`.
pub fn button_data(kind: ButtonKind, player_id: i64, game_id: i64) -> (s: String)
    ensures
        s@ == callback_data(kind_text(kind), player_id as int, game_id as int),
{
    let mut s = String::from_str(kind_str(kind));
    s.append(":");
    push_decimal(&mut s, player_id);
    s.append(":");
    push_decimal(&mut s, game_id);
    proof {
        reveal_strlit(":");
    }
    assert(s@ =~= callback_data(kind_text(kind), player_id as int, game_id as int));
    s
}

/// A press as the bot reads it back: the kind text, the player, the game.
pub struct ButtonPress {
    pub button_type: String,
    pub player_id: i64,
    pub game_id: i64,
}

/// A number read from a button, zero when it does not parse.
pub open spec fn number_or_zero(s: Seq<char>) -> int {
    match parsed_i64(s) {
        Some(v) => v,
        None => 0,
    }
}

/// How the bot reads the data of a pressed button: three colon-separated
/// parts, the kind, then the player and the game (a number that does not
/// parse counts as zero); anything else is ignored.
pub open spec fn read_press(data: Seq<char>) -> Option<(Seq<char>, int, int)> {
    let parts = split_on(data, ':');
    if parts.len() == 3 {
        Some((parts[0], number_or_zero(parts[1]), number_or_zero(parts[2])))
    } else {
        None
    }
}

fn number_or_zero_exec(s: &str) -> (v: i64)
    ensures
        v == number_or_zero(s@),
{
    match parse_i64(s) {
        Some(v) => v,
        None => 0,
    }
}

/// Reads the data of a pressed button.
pub fn read_button_data(data: &str) -> (r: Option<ButtonPress>)
    ensures
        match read_press(data@) {
            Some((k, p, g)) => r matches Some(b) && b.button_type@ == k && b.player_id == p && b.game_id == g,
            None => r is None,
        },
{
    let mut parts = split_on_char(data, ':');
    if parts.len() != 3 {
        return None;
    }
    let ghost v = views(parts@);
    let game_text = parts.pop().unwrap();
    let player_text = parts.pop().unwrap();
    let kind_text = parts.pop().unwrap();
    assert(v[0] == kind_text@ && v[1] == player_text@ && v[2] == game_text@);
    let player_id = number_or_zero_exec(player_text.as_str());
    let game_id = number_or_zero_exec(game_text.as_str());
    Some(ButtonPress { button_type: kind_text, player_id, game_id })
}

proof fn lemma_no_colon_in_decimal(n: int)
    ensures
        !decimal(n).contains(':'),
{
    if decimal(n).contains(':') {
        let k = choose|k: int| 0 <= k < decimal(n).len() && decimal(n)[k] == ':';
        lemma_digits_have_no_colon(if n < 0 {
            (-n) as nat
        } else {
            n as nat
        }, if n < 0 {
            k - 1
        } else {
            k
        });
    }
}

proof fn lemma_digits_have_no_colon(n: nat, k: int)
    ensures
        0 <= k < crate::text::digits(n).len() ==> crate::text::digits(n)[k] != ':',
    decreases n,
{
    if n >= 10 && 0 <= k < crate::text::digits(n).len() - 1 {
        lemma_digits_have_no_colon(n / 10, k);
    }
}

/// The bot reads back from a button exactly what it wrote into it.
pub proof fn lemma_button_data_reads_back(kind: ButtonKind, player_id: i64, game_id: i64)
    ensures
        read_press(callback_data(kind_text(kind), player_id as int, game_id as int)) == Some(
            (kind_text(kind), player_id as int, game_id as int),
        ),
{
    let k = kind_text(kind);
    let p = decimal(player_id as int);
    let g = decimal(game_id as int);
    assert(!k.contains(':')) by {
        reveal_strlit("player");
        reveal_strlit("spectator");
        reveal_strlit("delete_player");
        if k.contains(':') {
            let i = choose|i: int| 0 <= i < k.len() && k[i] == ':';
            assert(k[i] == ':');
        }
    }
    lemma_no_colon_in_decimal(player_id as int);
    lemma_no_colon_in_decimal(game_id as int);
    lemma_split_single(k, ':');
    lemma_split_joined(k, p, ':');
    lemma_split_joined(k + seq![':'] + p, g, ':');
    lemma_decimal_parses_back(player_id);
    lemma_decimal_parses_back(game_id);
    let parts = split_on(callback_data(k, player_id as int, game_id as int), ':');
    assert(parts =~= seq![k, p, g]);
}

/// Which kind of button the read kind text names, if any.
pub fn button_kind(button_type: &str) -> (k: Option<ButtonKind>)
    ensures
        match k {
            Some(kind) => kind_text(kind) == button_type@,
            None => button_type@ != kind_text(ButtonKind::Player) && button_type@ != kind_text(
                ButtonKind::Spectator,
            ) && button_type@ != kind_text(ButtonKind::DeletePlayer),
        },
{
    if same_text(button_type, "player") {
        Some(ButtonKind::Player)
    } else if same_text(button_type, "spectator") {
        Some(ButtonKind::Spectator)
    } else if same_text(button_type, "delete_player") {
        Some(ButtonKind::DeletePlayer)
    } else {
        None
    }
}

/// How a press of a registration button ended.
#[derive(Clone, Copy, PartialEq, Eq, Structural, Debug)]
pub enum PressOutcome {
    PlayerRegistered,
    PlayerInReserve,
    SpectatorRegistered,
    SpectatorNoSeats,
    SpectatorAlreadyRegistered,
    Withdrawn,
}

/// The text that replaces the invitation after a press.
pub open spec fn press_reply(o: PressOutcome, day: Seq<char>, time: Seq<char>, location: Seq<char>) -> Seq<char> {
    match o {
        PressOutcome::PlayerRegistered => "Вы зарегистрированы на игру, которая состоится "@ + day + " в "@ + time
            + ".\nМесто проведения игры: "@ + location + "."@,
        PressOutcome::PlayerInReserve => "Мне очень жаль, но игровые места на игру, которая состоится "@ + day
            + " в "@ + time
            + " закончились. Вы зарегестрированы в резерв и в случае, если кто-то из огроков откажется от учатия в игре, я приглашу Вас к участию. Так же Вы можете зарегестрироваться на эту игру зрителем. Надеюсь увидеть Вас на наших играх."@,
        PressOutcome::SpectatorRegistered => "Мы ждем Вас в зрительном зале на игре, которая состоится "@ + day
            + " в "@ + time + ".\nМесто проведения игры: "@ + location + "."@,
        PressOutcome::SpectatorNoSeats => "Мне очень жаль, но зрительный зал игры, которая состоится "@ + day
            + " в "@ + time + " полон. Надеюсь увидеть Вас на других играх."@,
        PressOutcome::SpectatorAlreadyRegistered => "Вы уже зарегистрированы зрителем на игру, которая состоится "@
            + day + " в "@ + time,
        PressOutcome::Withdrawn => "Очень жаль, что Вы отказались от игры, которая состоится "@ + day + " в "@ + time
            + ".\nМесто проведения игры: "@ + location + "."@,
    }
}

/// What the bot says after a press on an invitation; the conversation then
/// moves to `RegistrationComplete`.
pub fn choice_registration_reply(outcome: PressOutcome, game_day: &str, game_time: &str, game_location: &str) -> (r: (
    String,
    State,
))
    ensures
        r.0@ == press_reply(outcome, game_day@, game_time@, game_location@),
        r.1 is RegistrationComplete,
{
    let mut s: String;
    match outcome {
        PressOutcome::PlayerRegistered => {
            s = String::from_str("Вы зарегистрированы на игру, которая состоится ");
            s.append(game_day);
            s.append(" в ");
            s.append(game_time);
            s.append(".\nМесто проведения игры: ");
            s.append(game_location);
            s.append(".");
        },
        PressOutcome::PlayerInReserve => {
            s = String::from_str("Мне очень жаль, но игровые места на игру, которая состоится ");
            s.append(game_day);
            s.append(" в ");
            s.append(game_time);
            s.append(
                " закончились. Вы зарегестрированы в резерв и в случае, если кто-то из огроков откажется от учатия в игре, я приглашу Вас к участию. Так же Вы можете зарегестрироваться на эту игру зрителем. Надеюсь увидеть Вас на наших играх.",
            );
        },
        PressOutcome::SpectatorRegistered => {
            s = String::from_str("Мы ждем Вас в зрительном зале на игре, которая состоится ");
            s.append(game_day);
            s.append(" в ");
            s.append(game_time);
            s.append(".\nМесто проведения игры: ");
            s.append(game_location);
            s.append(".");
        },
        PressOutcome::SpectatorNoSeats => {
            s = String::from_str("Мне очень жаль, но зрительный зал игры, которая состоится ");
            s.append(game_day);
            s.append(" в ");
            s.append(game_time);
            s.append(" полон. Надеюсь увидеть Вас на других играх.");
        },
        PressOutcome::SpectatorAlreadyRegistered => {
            s = String::from_str("Вы уже зарегистрированы зрителем на игру, которая состоится ");
            s.append(game_day);
            s.append(" в ");
            s.append(game_time);
        },
        PressOutcome::Withdrawn => {
            s = String::from_str("Очень жаль, что Вы отказались от игры, которая состоится ");
            s.append(game_day);
            s.append(" в ");
            s.append(game_time);
            s.append(".\nМесто проведения игры: ");
            s.append(game_location);
            s.append(".");
        },
    }
    (s, State::RegistrationComplete)
}

/// The kind of button a read kind text names, if any.
pub open spec fn named_kind(s: Seq<char>) -> Option<ButtonKind> {
    if s == kind_text(ButtonKind::Player) {
        Some(ButtonKind::Player)
    } else if s == kind_text(ButtonKind::Spectator) {
        Some(ButtonKind::Spectator)
    } else if s == kind_text(ButtonKind::DeletePlayer) {
        Some(ButtonKind::DeletePlayer)
    } else {
        None
    }
}

/// How a press of a `kind` button by `p` ends, given the game's
/// registration table `t` and its `seats` spectator seats.
pub open spec fn press_outcome(kind: ButtonKind, t: Seq<RegEntry>, seats: int, p: i64) -> PressOutcome {
    match kind {
        ButtonKind::Player => if player_registration(t, p).2 {
            PressOutcome::PlayerRegistered
        } else {
            PressOutcome::PlayerInReserve
        },
        ButtonKind::Spectator => match spectator_registration(t, seats, p) {
            Ok(_) => PressOutcome::SpectatorRegistered,
            Err(SpectatorRefusal::NoSeats) => PressOutcome::SpectatorNoSeats,
            Err(SpectatorRefusal::AlreadyRegistered) => PressOutcome::SpectatorAlreadyRegistered,
        },
        ButtonKind::DeletePlayer => PressOutcome::Withdrawn,
    }
}

/// The rows such a press deletes from the table, and the row it inserts.
pub open spec fn press_change(kind: ButtonKind, t: Seq<RegEntry>, seats: int, p: i64) -> (Seq<RegEntry>, Option<
    RegEntry,
>) {
    match kind {
        ButtonKind::Player => (player_registration(t, p).0, player_registration(t, p).1),
        ButtonKind::Spectator => match spectator_registration(t, seats, p) {
            Ok(e) => (seq![], Some(e)),
            Err(_) => (seq![], None),
        },
        ButtonKind::DeletePlayer => (seq![RegEntry::Player(p)], None),
    }
}

/// What a press on an invitation does: the change to the game's
/// registration table, how the press ended, the text that replaces the
/// invitation, and the conversation's next state.
pub struct PressResult {
    pub change: RegistrationChange,
    pub outcome: PressOutcome,
    pub reply: String,
    pub next: State,
}

/// A press of a registration button, read from its data, on the game with
/// registration table `table`, `seats_spectator` spectator seats, and the
/// given day, time and place: registering as a player (or into the
/// reserve), as a spectator, or withdrawing; the reply follows the outcome
/// and the conversation moves to `RegistrationComplete`. A kind text that
/// names no button does nothing (`None`).
pub fn choice_registration_for_the_game(
    press: &ButtonPress,
    table: &Vec<RegEntry>,
    seats_spectator: i8,
    game_day: &str,
    game_time: &str,
    game_location: &str,
) -> (r: Option<PressResult>)
    ensures
        match named_kind(press.button_type@) {
            None => r is None,
            Some(kind) => r matches Some(res) && (res.change.delete@, res.change.insert) == press_change(
                kind,
                table@,
                seats_spectator as int,
                press.player_id,
            ) && res.outcome == press_outcome(kind, table@, seats_spectator as int, press.player_id)
                && res.reply@ == press_reply(res.outcome, game_day@, game_time@, game_location@)
                && res.next is RegistrationComplete,
        },
{
    proof {
        reveal_strlit("player");
        reveal_strlit("spectator");
        reveal_strlit("delete_player");
    }
    let kind = match button_kind(press.button_type.as_str()) {
        Some(k) => k,
        None => {
            return None;
        },
    };
    let (change, outcome) = match kind {
        ButtonKind::Player => {
            let (change, result) = reg_game_player(table, press.player_id);
            let outcome = if result.is_ok() {
                PressOutcome::PlayerRegistered
            } else {
                PressOutcome::PlayerInReserve
            };
            (change, outcome)
        },
        ButtonKind::Spectator => match reg_game_spectator(table, seats_spectator, press.player_id) {
            Ok(row) => (RegistrationChange { delete: Vec::new(), insert: Some(row) }, PressOutcome::SpectatorRegistered),
            Err(SpectatorRefusal::NoSeats) => (
                RegistrationChange { delete: Vec::new(), insert: None },
                PressOutcome::SpectatorNoSeats,
            ),
            Err(SpectatorRefusal::AlreadyRegistered) => (
                RegistrationChange { delete: Vec::new(), insert: None },
                PressOutcome::SpectatorAlreadyRegistered,
            ),
        },
        ButtonKind::DeletePlayer => (delete_game_player(press.player_id), PressOutcome::Withdrawn),
    };
    let (reply, next) = choice_registration_reply(outcome, game_day, game_time, game_location);
    proof {
        assert(kind_text(ButtonKind::Player).len() == 6);
        assert(kind_text(ButtonKind::Spectator).len() == 9);
        assert(kind_text(ButtonKind::DeletePlayer).len() == 13);
        assert(named_kind(press.button_type@) == Some(kind));
        assert(change.delete@ =~= press_change(kind, table@, seats_spectator as int, press.player_id).0);
        assert(change.insert == press_change(kind, table@, seats_spectator as int, press.player_id).1);
        assert(outcome == press_outcome(kind, table@, seats_spectator as int, press.player_id));
    }
    Some(PressResult { change, outcome, reply, next })
}

/// The invitation messages to delete after a press: every one the bot
/// remembered for the player except the pressed one, in order.
pub fn messages_to_delete(remembered: &Vec<i32>, pressed: i32) -> (ids: Vec<i32>)
    ensures
        ids@ == remembered@.filter(|id: i32| id != pressed),
{
    let mut ids: Vec<i32> = Vec::new();
    let mut i: usize = 0;
    while i < remembered.len()
        invariant
            i <= remembered@.len(),
            ids@ == remembered@.take(i as int).filter(|id: i32| id != pressed),
        decreases remembered.len() - i,
    {
        proof {
            assert(remembered@.take(i + 1).drop_last() =~= remembered@.take(i as int));
            reveal(Seq::filter);
        }
        if remembered[i] != pressed {
            ids.push(remembered[i]);
        }
        i = i + 1;
    }
    assert(remembered@.take(remembered@.len() as int) =~= remembered@);
    ids
}

/// An announced game of the player's city, as the bot lists it.
pub struct GameInfo {
    pub game_id: i64,
    pub game_day: String,
    pub game_time: String,
    pub game_location: String,
    /// Whether the player already holds a player row of the game.
    pub player_registered: bool,
}

/// An inline button: its label and the data it carries.
pub struct Button {
    pub label: String,
    pub data: String,
}

/// A message listing one game, with its buttons. Invitations are
/// remembered, so that they can be deleted once the player has chosen.
pub struct GameOffer {
    pub text: String,
    pub buttons: Vec<Button>,
    pub remember: bool,
}

pub open spec fn offer_text(g: GameInfo) -> Seq<char> {
    if g.player_registered {
        "Вы зарегестрированы на игру, которая состоится: "@ + g.game_day@ + "\nв: "@ + g.game_time@
            + ".\nМесто проведения игры: "@ + g.game_location@
    } else {
        "Открыта регистрация на игру, которая пройдёт: "@ + g.game_day@ + "\nВремя начала игры: "@
            + g.game_time@ + "\nМесто проведения игры: "@ + g.game_location@
    }
}

/// The buttons under the listing of `g` for `player_id`, as (label, data).
pub open spec fn offer_buttons(g: GameInfo, player_id: i64) -> Seq<(Seq<char>, Seq<char>)> {
    if g.player_registered {
        seq![("Отказаться от игры"@, callback_data(kind_text(ButtonKind::DeletePlayer), player_id as int, g.game_id as int))]
    } else {
        seq![
            ("Игроком"@, callback_data(kind_text(ButtonKind::Player), player_id as int, g.game_id as int)),
            ("Зрителем"@, callback_data(kind_text(ButtonKind::Spectator), player_id as int, g.game_id as int)),
        ]
    }
}

pub open spec fn button_views(b: Seq<Button>) -> Seq<(Seq<char>, Seq<char>)> {
    Seq::new(b.len(), |k: int| (b[k].label@, b[k].data@))
}

pub open spec fn no_games_text() -> Seq<char> {
    "В данный момент отсутвуют анонсированные игры.\nКак только будеть объявлена регистрация на игру, я сообщу Вам об этом."@
}

/// What `/reggame` shows.
pub struct GameList {
    /// A note when there is no game to list.
    pub note: Option<String>,
    pub offers: Vec<GameOffer>,
    pub next: Option<State>,
}

fn game_offer(g: &GameInfo, player_id: i64) -> (o: GameOffer)
    ensures
        o.text@ == offer_text(*g),
        button_views(o.buttons@) == offer_buttons(*g, player_id),
        o.remember == !g.player_registered,
{
    if g.player_registered {
        let mut text = String::from_str("Вы зарегестрированы на игру, которая состоится: ");
        text.append(g.game_day.as_str());
        text.append("\nв: ");
        text.append(g.game_time.as_str());
        text.append(".\nМесто проведения игры: ");
        text.append(g.game_location.as_str());
        let buttons = vec![
            Button {
                label: String::from_str("Отказаться от игры"),
                data: button_data(ButtonKind::DeletePlayer, player_id, g.game_id),
            },
        ];
        assert(button_views(buttons@) =~= offer_buttons(*g, player_id));
        GameOffer { text, buttons, remember: false }
    } else {
        let mut text = String::from_str("Открыта регистрация на игру, которая пройдёт: ");
        text.append(g.game_day.as_str());
        text.append("\nВремя начала игры: ");
        text.append(g.game_time.as_str());
        text.append("\nМесто проведения игры: ");
        text.append(g.game_location.as_str());
        let buttons = vec![
            Button { label: String::from_str("Игроком"), data: button_data(ButtonKind::Player, player_id, g.game_id) },
            Button {
                label: String::from_str("Зрителем"),
                data: button_data(ButtonKind::Spectator, player_id, g.game_id),
            },
        ];
        assert(button_views(buttons@) =~= offer_buttons(*g, player_id));
        GameOffer { text, buttons, remember: true }
    }
}

/// `/reggame`: the announced games of the player's city, each with the
/// buttons to register (or, once registered, to withdraw); with no game a
/// note says so and the conversation stays where it is.
pub fn reg_game(games: &Vec<GameInfo>, player_id: i64) -> (r: GameList)
    ensures
        games@.len() == 0 ==> (r.note matches Some(n) && n@ == no_games_text()),
        games@.len() > 0 ==> r.note is None,
        r.offers@.len() == games@.len(),
        forall|k: int|
            0 <= k < games@.len() ==> (#[trigger] r.offers@[k]).text@ == offer_text(games@[k])
                && button_views(r.offers@[k].buttons@) == offer_buttons(games@[k], player_id)
                && r.offers@[k].remember == !games@[k].player_registered,
        games@.len() > 0 ==> r.next matches Some(State::RegistrationForTheGame),
        games@.len() == 0 ==> r.next is None,
{
    let mut offers: Vec<GameOffer> = Vec::new();
    let mut i: usize = 0;
    while i < games.len()
        invariant
            i <= games@.len(),
            offers@.len() == i,
            forall|k: int|
                0 <= k < i ==> (#[trigger] offers@[k]).text@ == offer_text(games@[k])
                    && button_views(offers@[k].buttons@) == offer_buttons(games@[k], player_id)
                    && offers@[k].remember == !games@[k].player_registered,
        decreases games.len() - i,
    {
        let o = game_offer(&games[i], player_id);
        offers.push(o);
        i = i + 1;
    }
    if games.len() == 0 {
        let note = String::from_str(
            "В данный момент отсутвуют анонсированные игры.\nКак только будеть объявлена регистрация на игру, я сообщу Вам об этом.",
        );
        GameList { note: Some(note), offers, next: None }
    } else {
        GameList { note: None, offers, next: Some(State::RegistrationForTheGame) }
    }
}

/// The notice sent to the reserve players when a seat frees up.
pub open spec fn free_space_text(day: Seq<char>, time: Seq<char>, location: Seq<char>, price_player: int) -> Seq<
    char,
> {
    "Рад сообщить Вам, что освободилось место на игру, которая пройдет "@ + day + ".\nНачало игры в "@ + time
        + ".\nМесто проведения игры: "@ + location + ".\nСтоимость участия в игре: "@ + decimal(price_player)
        + " руб.\nОплата наличными или банковским переводом.\nДля регистрации нажмите /reggame"@
}

pub fn free_space_game_bot(game_day: &str, game_time: &str, game_location: &str, price_player: i64) -> (s: String)
    ensures
        s@ == free_space_text(game_day@, game_time@, game_location@, price_player as int),
{
    let mut s = String::from_str("Рад сообщить Вам, что освободилось место на игру, которая пройдет ");
    s.append(game_day);
    s.append(".\nНачало игры в ");
    s.append(game_time);
    s.append(".\nМесто проведения игры: ");
    s.append(game_location);
    s.append(".\nСтоимость участия в игре: ");
    push_decimal(&mut s, price_player);
    s.append(" руб.\nОплата наличными или банковским переводом.\nДля регистрации нажмите /reggame");
    s
}

/// The notice sent to everybody registered when a game is cancelled.
pub open spec fn cancel_text(day: Seq<char>, time: Seq<char>) -> Seq<char> {
    "Мне очень жаль, но организаторы вынуждены отменить игру, проведение которой планировалось "@ + day
        + ".\nв "@ + time + ".\nПредлагаю посмотреть список других объявленных игр /reggame"@
}

pub fn del_game_bot(game_day: &str, game_time: &str) -> (s: String)
    ensures
        s@ == cancel_text(game_day@, game_time@),
{
    let mut s = String::from_str(
        "Мне очень жаль, но организаторы вынуждены отменить игру, проведение которой планировалось ",
    );
    s.append(game_day);
    s.append(".\nв ");
    s.append(game_time);
    s.append(".\nПредлагаю посмотреть список других объявленных игр /reggame");
    s
}

/// The notice sent to the players of the organiser's city when a game is
/// announced.
pub open spec fn announce_text(day: Seq<char>, time: Seq<char>, location: Seq<char>, price_player: int, price_spectator: int) -> Seq<char> {
    "Рад сообщить Вам, что объявлена регистрация на игру, которая пройдет "@ + day + ".\nНачало игры в "@ + time
        + ".\nМесто проведения игры: "@ + location + ".\nСтоимость участия в игре: "@ + decimal(price_player)
        + " руб.\nСтоимость присутсвия в зрительном зале: "@ + decimal(price_spectator)
        + " руб.\nОплата наличными или банковским переводом.\nДля регистрации нажмите /reggame"@
}

pub fn announce_game_bot(
    game_day: &str,
    game_time: &str,
    game_location: &str,
    price_player: i32,
    price_spectator: i32,
) -> (s: String)
    ensures
        s@ == announce_text(game_day@, game_time@, game_location@, price_player as int, price_spectator as int),
{
    let mut s = String::from_str("Рад сообщить Вам, что объявлена регистрация на игру, которая пройдет ");
    s.append(game_day);
    s.append(".\nНачало игры в ");
    s.append(game_time);
    s.append(".\nМесто проведения игры: ");
    s.append(game_location);
    s.append(".\nСтоимость участия в игре: ");
    push_decimal(&mut s, price_player as i64);
    s.append(" руб.\nСтоимость присутсвия в зрительном зале: ");
    push_decimal(&mut s, price_spectator as i64);
    s.append(" руб.\nОплата наличными или банковским переводом.\nДля регистрации нажмите /reggame");
    s
}

} // verus!
