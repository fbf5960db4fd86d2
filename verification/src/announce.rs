//! Announcing a game: the date as the organiser picks it, the rule that
//! the organiser has no other game at the same place and time, and the
//! header of the confirmation page.

use vstd::prelude::*;
use vstd::string::*;
use chrono::Datelike;
use crate::text::{digit_char, digits, decimal_string, push_char, same_text};

verus! {

/// The announcement form.
pub struct AnnounceGame {
    pub datepicker: String,
    pub timepicker: String,
    pub announce_message: String,
    pub price_player: i32,
    pub price_spectator: i32,
    pub seats_spectator: i8,
}

/// What `chrono::NaiveDate::parse_from_str(s, "%Y-%m-%d")` gives for
/// `s`: the year, month and day, or the text of the parse error.
pub uninterp spec fn chrono_date(s: Seq<char>) -> Result<(i32, u32, u32), Seq<char>>;

/// Parses a `%Y-%m-%d` date with `chrono`; the result depends on the text
/// alone and is named `chrono_date`. A parsed date is a valid calendar
/// date, so its month is 1 to 12 and its day 1 to 31.
#[verifier::external_body]
fn parse_date(s: &str) -> (r: Result<(i32, u32, u32), String>)
    ensures
        match r {
            Ok((y, m, d)) => chrono_date(s@) == Ok::<(i32, u32, u32), Seq<char>>((y, m, d)) && 1 <= m <= 12 && 1
                <= d <= 31,
            Err(e) => chrono_date(s@) == Err::<(i32, u32, u32), Seq<char>>(e@),
        },
{
    match chrono::NaiveDate::parse_from_str(s, "%Y-%m-%d") {
        Ok(d) => Ok((d.year(), d.month(), d.day())),
        Err(e) => Err(e.to_string()),
    }
}

/// Two decimal digits of `v` (`0 <= v < 100`).
pub open spec fn two_digits(v: int) -> Seq<char> {
    seq![digit_char(v / 10), digit_char(v % 10)]
}

/// The digits of `n`, zero-padded to at least four.
pub open spec fn four_digits(n: nat) -> Seq<char> {
    let d = digits(n);
    if d.len() < 4 {
        Seq::new((4 - d.len()) as nat, |k: int| '0') + d
    } else {
        d
    }
}

/// A year as `%Y` writes it: four digits (zero-padded) for the years 0 to
/// 9999, with a sign before any other year.
pub open spec fn year_text(y: int) -> Seq<char> {
    if 0 <= y <= 9999 {
        four_digits(y as nat)
    } else if y < 0 {
        seq!['-'] + four_digits((-y) as nat)
    } else {
        seq!['+'] + four_digits(y as nat)
    }
}

/// A date as `%d.%m.%Y` writes it.
pub open spec fn dotted_date(y: int, m: int, d: int) -> Seq<char> {
    two_digits(d) + seq!['.'] + two_digits(m) + seq!['.'] + year_text(y)
}

fn push_two_digits(s: &mut String, v: u32)
    requires
        v < 100,
    ensures
        final(s)@ == old(s)@ + two_digits(v as int),
{
    let tens = crate::text::decimal_string((v / 10) as i64);
    let ones = crate::text::decimal_string((v % 10) as i64);
    proof {
        reveal_with_fuel(digits, 2);
    }
    s.append(tens.as_str());
    s.append(ones.as_str());
    assert(final(s)@ =~= old(s)@ + two_digits(v as int)) by {
        assert(tens@ == seq![digit_char((v / 10) as int)]);
        assert(ones@ == seq![digit_char((v % 10) as int)]);
    }
}

fn push_four_digits(s: &mut String, n: u32)
    ensures
        final(s)@ == old(s)@ + four_digits(n as nat),
{
    let text = decimal_string(n as i64);
    let len = text.as_str().unicode_len();
    let ghost start = s@;
    let mut k: usize = len;
    while k < 4
        invariant
            len == digits(n as nat).len(),
            len <= k <= 4 || (k == len && len > 4),
            s@ == start + Seq::new((k - len) as nat, |i: int| '0'),
        decreases 4 - k,
    {
        push_char(s, '0');
        k = k + 1;
        assert(s@ =~= start + Seq::new((k - len) as nat, |i: int| '0'));
    }
    s.append(text.as_str());
    if len < 4 {
        assert(s@ =~= start + four_digits(n as nat));
    } else {
        assert(s@ =~= start + four_digits(n as nat));
    }
}

/// Writes the picked date of a game as the site shows it.
pub fn format_game_day(y: i32, m: u32, d: u32) -> (s: String)
    requires
        1 <= m <= 12,
        1 <= d <= 31,
    ensures
        s@ == dotted_date(y as int, m as int, d as int),
{
    let mut s = String::new();
    push_two_digits(&mut s, d);
    push_char(&mut s, '.');
    push_two_digits(&mut s, m);
    push_char(&mut s, '.');
    if 0 <= y && y <= 9999 {
        push_four_digits(&mut s, y as u32);
    } else if y < 0 {
        push_char(&mut s, '-');
        let magnitude: u32 = (0i64 - y as i64) as u32;
        push_four_digits(&mut s, magnitude);
    } else {
        push_char(&mut s, '+');
        push_four_digits(&mut s, y as u32);
    }
    assert(s@ =~= dotted_date(y as int, m as int, d as int));
    s
}

/// A game already announced by the organiser.
pub struct GameSlot {
    pub game_day: String,
    pub game_time: String,
    pub game_location: String,
}

/// The organiser may not announce two games for the same day, time and
/// place.
pub fn create_game_table(games: &Vec<GameSlot>, new: &GameSlot) -> (free: bool)
    ensures
        free <==> forall|k: int|
            0 <= k < games@.len() ==> !((#[trigger] games@[k]).game_day@ == new.game_day@ && games@[k].game_time@
                == new.game_time@ && games@[k].game_location@ == new.game_location@),
{
    let mut i: usize = 0;
    while i < games.len()
        invariant
            i <= games@.len(),
            forall|k: int|
                0 <= k < i ==> !((#[trigger] games@[k]).game_day@ == new.game_day@ && games@[k].game_time@
                    == new.game_time@ && games@[k].game_location@ == new.game_location@),
        decreases games.len() - i,
    {
        let g = &games[i];
        if same_text(g.game_day.as_str(), new.game_day.as_str()) && same_text(
            g.game_time.as_str(),
            new.game_time.as_str(),
        ) && same_text(g.game_location.as_str(), new.game_location.as_str()) {
            return false;
        }
        i = i + 1;
    }
    true
}

/// The header of the page that confirms an announcement.
pub open spec fn announced_header(day: Seq<char>, time: Seq<char>, location: Seq<char>) -> Seq<char> {
    "На "@ + day + " объявлена игра. Начало игры в "@ + time + ". Место проведения игры: "@ + location + "."@
}

/// The organiser announces a game: the picked date is read and written as
/// the site shows it (`Ok` with the game day), or the parse error is
/// reported in the page header (`Err`).
pub fn announce_game(form: &AnnounceGame) -> (r: Result<String, String>)
    ensures
        match chrono_date(form.datepicker@) {
            Ok((y, m, d)) => r matches Ok(day) && day@ == dotted_date(y as int, m as int, d as int),
            Err(e) => r matches Err(h) && h@ == "Обработка ошибки парсинга даты: "@ + e,
        },
{
    match parse_date(form.datepicker.as_str()) {
        Ok((y, m, d)) => Ok(format_game_day(y, m, d)),
        Err(e) => {
            let mut h = String::from_str("Обработка ошибки парсинга даты: ");
            h.append(e.as_str());
            Err(h)
        },
    }
}

/// The header of the confirmation page of an announced game.
pub fn announced(game_day: &str, game_time: &str, game_location: &str) -> (h: String)
    ensures
        h@ == announced_header(game_day@, game_time@, game_location@),
{
    let mut h = String::from_str("На ");
    h.append(game_day);
    h.append(" объявлена игра. Начало игры в ");
    h.append(game_time);
    h.append(". Место проведения игры: ");
    h.append(game_location);
    h.append(".");
    h
}

} // verus!
