//! The schedule of a game: sixteen players are seated in a 4x4 grid and play
//! three qualifying tours of four rounds each (grid rows, grid columns, grid
//! diagonals), followed by a final of thirty questions.

use vstd::prelude::*;

verus! {

/// Number of players in a game.
pub const PLAYERS_IN_GAME: usize = 16;

/// Questions played by one foursome in one round.
pub const QUESTIONS_PER_ROUND: usize = 20;

/// Rows of the qualifying tours (three tours of four rounds).
pub const QUALIFYING_ROWS: usize = 240;

/// Rows of the whole game schema, the final included.
pub const SCHEMA_ROWS: usize = 270;

/// The four players of one round.
#[derive(Clone, Copy, PartialEq, Eq, Debug)]
pub struct Foursome {
    pub p1: i64,
    pub p2: i64,
    pub p3: i64,
    pub p4: i64,
}

/// One row of the game schema: the question slot of a round of a tour, and
/// the foursome that plays it (unknown for the final until the qualifying
/// tours are over).
#[derive(Clone, Copy, PartialEq, Eq, Debug)]
pub struct SchemaRow {
    pub tour: u8,
    pub round: u8,
    pub players: Option<Foursome>,
}

impl Foursome {
    pub open spec fn contains(self, p: i64) -> bool {
        self.p1 == p || self.p2 == p || self.p3 == p || self.p4 == p
    }
}

/// Column of the grid played in round `round` of the second tour.
pub open spec fn second_tour_column(round: int) -> int {
    if round == 1 {
        1
    } else if round == 2 {
        0
    } else if round == 3 {
        2
    } else {
        3
    }
}

/// Grid position (index into the shuffled player list) of the `slot`-th
/// player of round `round` of tour `tour`.
pub open spec fn seat(tour: int, round: int, slot: int) -> int {
    if tour == 1 {
        4 * (round - 1) + slot
    } else if tour == 2 {
        4 * slot + second_tour_column(round)
    } else {
        4 * ((slot + round - 1) % 4) + slot
    }
}

/// The foursome of round `round` of tour `tour`.
pub open spec fn group(players: Seq<i64>, tour: int, round: int) -> Foursome {
    Foursome {
        p1: players[seat(tour, round, 0)],
        p2: players[seat(tour, round, 1)],
        p3: players[seat(tour, round, 2)],
        p4: players[seat(tour, round, 3)],
    }
}

/// Row `i` (the row with id `i + 1` in the database) of the schema of a game
/// whose shuffled players are `players`.
pub open spec fn schema_row(players: Seq<i64>, i: int) -> SchemaRow {
    if i < 240 {
        let tour = i / 80 + 1;
        let round = (i % 80) / 20 + 1;
        SchemaRow { tour: tour as u8, round: round as u8, players: Some(group(players, tour, round)) }
    } else {
        SchemaRow { tour: 4, round: 1, players: None }
    }
}

/// The whole schema of a game whose shuffled players are `players`.
pub open spec fn game_schema(players: Seq<i64>) -> Seq<SchemaRow> {
    Seq::new(270, |i: int| schema_row(players, i))
}

fn seat_index(tour: u8, round: u8, slot: u8) -> (r: usize)
    requires
        1 <= tour <= 3,
        1 <= round <= 4,
        slot < 4,
    ensures
        r == seat(tour as int, round as int, slot as int),
        r < 16,
{
    if tour == 1 {
        (4 * (round - 1) + slot) as usize
    } else if tour == 2 {
        let column: u8 = if round == 1 {
            1
        } else if round == 2 {
            0
        } else if round == 3 {
            2
        } else {
            3
        };
        (4 * slot + column) as usize
    } else {
        (4 * ((slot + round - 1) % 4) + slot) as usize
    }
}

/// Builds the schema of a game from its sixteen (already shuffled) players:
/// rows 1..80 are the first tour (grid rows), 81..160 the second (grid
/// columns), 161..240 the third (grid diagonals), twenty rows per round, and
/// rows 241..270 the final, whose players are set later.
pub fn build_game_schema(players: &Vec<i64>) -> (schema: Vec<SchemaRow>)
    requires
        players@.len() == 16,
    ensures
        schema@ == game_schema(players@),
{
    let mut schema: Vec<SchemaRow> = Vec::new();
    let mut i: usize = 0;
    while i < 270
        invariant
            players@.len() == 16,
            i <= 270,
            schema@.len() == i,
            forall|j: int| 0 <= j < i ==> schema@[j] == schema_row(players@, j),
        decreases 270 - i,
    {
        if i < 240 {
            let tour: u8 = (i / 80 + 1) as u8;
            let round: u8 = ((i % 80) / 20 + 1) as u8;
            let foursome = Foursome {
                p1: players[seat_index(tour, round, 0)],
                p2: players[seat_index(tour, round, 1)],
                p3: players[seat_index(tour, round, 2)],
                p4: players[seat_index(tour, round, 3)],
            };
            schema.push(SchemaRow { tour, round, players: Some(foursome) });
        } else {
            schema.push(SchemaRow { tour: 4, round: 1, players: None });
        }
        i = i + 1;
    }
    assert(schema@ =~= game_schema(players@));
    schema
}

/// Round of tour `tour` in which the player seated at grid position `j` plays.
pub open spec fn round_of(tour: int, j: int) -> int {
    if tour == 1 {
        j / 4 + 1
    } else if tour == 2 {
        let column = j % 4;
        if column == 1 {
            1
        } else if column == 0 {
            2
        } else if column == 2 {
            3
        } else {
            4
        }
    } else {
        (j / 4 - j % 4 + 4) % 4 + 1
    }
}

/// Place in the foursome of that round of the player seated at `j`.
pub open spec fn slot_of(tour: int, j: int) -> int {
    if tour == 2 {
        j / 4
    } else {
        j % 4
    }
}

proof fn lemma_seat_inverse(tour: int, j: int)
    requires
        1 <= tour <= 3,
        0 <= j < 16,
    ensures
        1 <= round_of(tour, j) <= 4,
        0 <= slot_of(tour, j) < 4,
        seat(tour, round_of(tour, j), slot_of(tour, j)) == j,
{
    assert(j == 4 * (j / 4) + j % 4);
}

proof fn lemma_seat_determines_round(tour: int, round: int, slot: int)
    requires
        1 <= tour <= 3,
        1 <= round <= 4,
        0 <= slot < 4,
    ensures
        0 <= seat(tour, round, slot) < 16,
        round_of(tour, seat(tour, round, slot)) == round,
        slot_of(tour, seat(tour, round, slot)) == slot,
{
    let j = seat(tour, round, slot);
    if tour == 3 {
        let row = (slot + round - 1) % 4;
        assert(0 <= row < 4);
        assert(j / 4 == row && j % 4 == slot);
        assert((row - slot + 4) % 4 == round - 1);
    }
}

/// Grid position of a player of a game with no repeated player.
proof fn lemma_position_of(players: Seq<i64>, a: int, b: int)
    requires
        players.no_duplicates(),
        0 <= a < players.len(),
        0 <= b < players.len(),
        players[a] == players[b],
    ensures
        a == b,
{
}

proof fn lemma_group_member(players: Seq<i64>, tour: int, round: int, j: int)
    requires
        players.len() == 16,
        players.no_duplicates(),
        1 <= tour <= 3,
        1 <= round <= 4,
        0 <= j < 16,
    ensures
        group(players, tour, round).contains(players[j]) <==> round_of(tour, j) == round,
{
    lemma_seat_inverse(tour, j);
    lemma_seat_determines_round(tour, round, 0);
    lemma_seat_determines_round(tour, round, 1);
    lemma_seat_determines_round(tour, round, 2);
    lemma_seat_determines_round(tour, round, 3);
    if group(players, tour, round).contains(players[j]) {
        if players[j] == players[seat(tour, round, 0)] {
            lemma_position_of(players, j, seat(tour, round, 0));
        } else if players[j] == players[seat(tour, round, 1)] {
            lemma_position_of(players, j, seat(tour, round, 1));
        } else if players[j] == players[seat(tour, round, 2)] {
            lemma_position_of(players, j, seat(tour, round, 2));
        } else {
            lemma_position_of(players, j, seat(tour, round, 3));
        }
    }
    if round_of(tour, j) == round {
        let k = slot_of(tour, j);
        assert(seat(tour, round, k) == j);
        if k == 0 {
        } else if k == 1 {
        } else if k == 2 {
        } else {
        }
    }
}

proof fn lemma_row_of_schema(seating: Seq<i64>, i: int)
    requires
        0 <= i < 240,
    ensures
        1 <= game_schema(seating)[i].tour <= 3,
        1 <= game_schema(seating)[i].round <= 4,
        game_schema(seating)[i].players == Some(
            group(seating, game_schema(seating)[i].tour as int, game_schema(seating)[i].round as int),
        ),
{
}

/// In each qualifying tour every player of the game plays in exactly one
/// round: some row of the tour seats the player, and all rows of the tour
/// that seat the player belong to the same round.
pub proof fn lemma_one_round_per_tour(seating: Seq<i64>, tour: int, player: i64)
    requires
        seating.len() == 16,
        seating.no_duplicates(),
        seating.contains(player),
        1 <= tour <= 3,
    ensures
        exists|i: int|
            0 <= i < 240 && #[trigger] game_schema(seating)[i].tour == tour
                && game_schema(seating)[i].players.unwrap().contains(player),
        forall|i: int, j: int|
            0 <= i < 240 && 0 <= j < 240 && game_schema(seating)[i].tour == tour
                && game_schema(seating)[j].tour == tour
                && game_schema(seating)[i].players.unwrap().contains(player)
                && game_schema(seating)[j].players.unwrap().contains(player) ==> #[trigger] game_schema(
                seating,
            )[i].round == #[trigger] game_schema(seating)[j].round,
{
    let p = choose|p: int| 0 <= p < 16 && seating[p] == player;
    lemma_seat_inverse(tour, p);
    let r = round_of(tour, p);
    let w = 80 * (tour - 1) + 20 * (r - 1);
    lemma_row_of_schema(seating, w);
    assert(game_schema(seating)[w].tour == tour);
    assert(game_schema(seating)[w].round == r);
    lemma_group_member(seating, tour, r, p);
    assert(game_schema(seating)[w].players.unwrap().contains(player));
    assert forall|i: int, j: int|
        0 <= i < 240 && 0 <= j < 240 && game_schema(seating)[i].tour == tour
            && game_schema(seating)[j].tour == tour
            && game_schema(seating)[i].players.unwrap().contains(player)
            && game_schema(seating)[j].players.unwrap().contains(player) implies #[trigger] game_schema(
        seating,
    )[i].round == #[trigger] game_schema(seating)[j].round by {
        lemma_row_of_schema(seating, i);
        lemma_row_of_schema(seating, j);
        lemma_group_member(seating, tour, game_schema(seating)[i].round as int, p);
        lemma_group_member(seating, tour, game_schema(seating)[j].round as int, p);
    }
}

/// Two different players of a game meet in at most one qualifying tour: if
/// a row of one tour seats both, no row of another tour seats both.
pub proof fn lemma_players_meet_at_most_once(seating: Seq<i64>, x: i64, y: i64, i: int, j: int)
    requires
        seating.len() == 16,
        seating.no_duplicates(),
        x != y,
        0 <= i < 240,
        0 <= j < 240,
        game_schema(seating)[i].tour != game_schema(seating)[j].tour,
        game_schema(seating)[i].players.unwrap().contains(x),
        game_schema(seating)[i].players.unwrap().contains(y),
    ensures
        !(game_schema(seating)[j].players.unwrap().contains(x) && game_schema(
            seating,
        )[j].players.unwrap().contains(y)),
{
    lemma_row_of_schema(seating, i);
    lemma_row_of_schema(seating, j);
    let ti = game_schema(seating)[i].tour as int;
    let ri = game_schema(seating)[i].round as int;
    let tj = game_schema(seating)[j].tour as int;
    let rj = game_schema(seating)[j].round as int;
    let g = group(seating, ti, ri);
    // x and y sit in the grid, as every member of a foursome does
    let a = if g.p1 == x {
        seat(ti, ri, 0)
    } else if g.p2 == x {
        seat(ti, ri, 1)
    } else if g.p3 == x {
        seat(ti, ri, 2)
    } else {
        seat(ti, ri, 3)
    };
    let b = if g.p1 == y {
        seat(ti, ri, 0)
    } else if g.p2 == y {
        seat(ti, ri, 1)
    } else if g.p3 == y {
        seat(ti, ri, 2)
    } else {
        seat(ti, ri, 3)
    };
    lemma_seat_determines_round(ti, ri, 0);
    lemma_seat_determines_round(ti, ri, 1);
    lemma_seat_determines_round(ti, ri, 2);
    lemma_seat_determines_round(ti, ri, 3);
    assert(seating[a] == x && seating[b] == y);
    assert(a != b);
    lemma_group_member(seating, ti, ri, a);
    lemma_group_member(seating, ti, ri, b);
    lemma_group_member(seating, tj, rj, a);
    lemma_group_member(seating, tj, rj, b);
    if group(seating, tj, rj).contains(x) && group(seating, tj, rj).contains(y) {
        lemma_grid_lines_cross_once(a, b, ti, tj);
    }
}

/// Diagonal of the grid position `4 * row + column`.
spec fn diagonal(row: int, column: int) -> int {
    let d = row - column + 4;
    if d >= 4 {
        d - 4
    } else {
        d
    }
}

/// Two different grid positions share at most one line: a row (first tour),
/// a column (second tour) or a diagonal (third tour).
proof fn lemma_grid_lines_cross_once(a: int, b: int, t1: int, t2: int)
    requires
        0 <= a < 16,
        0 <= b < 16,
        a != b,
        1 <= t1 <= 3,
        1 <= t2 <= 3,
        t1 != t2,
        round_of(t1, a) == round_of(t1, b),
    ensures
        round_of(t2, a) != round_of(t2, b),
{
    let ra = a / 4;
    let ca = a % 4;
    let rb = b / 4;
    let cb = b % 4;
    assert(a == 4 * ra + ca && 0 <= ca < 4 && 0 <= ra < 4);
    assert(b == 4 * rb + cb && 0 <= cb < 4 && 0 <= rb < 4);
    assert(round_of(3, a) == diagonal(ra, ca) + 1) by {
        let d = ra - ca + 4;
        assert(1 <= d <= 7);
        if d >= 4 {
            assert(d % 4 == d - 4);
        } else {
            assert(d % 4 == d);
        }
    }
    assert(round_of(3, b) == diagonal(rb, cb) + 1) by {
        let d = rb - cb + 4;
        assert(1 <= d <= 7);
        if d >= 4 {
            assert(d % 4 == d - 4);
        } else {
            assert(d % 4 == d);
        }
    }
    assert(round_of(1, a) == ra + 1 && round_of(1, b) == rb + 1);
    assert(round_of(2, a) == round_of(2, b) ==> ca == cb);
}

/// Shuffles `ids` in place with `rand`'s `SliceRandom::shuffle` on the
/// thread-local generator. The contract claims only what holds of every
/// outcome: the result is a rearrangement of the same ids (the source swaps
/// elements pairwise); which rearrangement comes out is left open.
#[verifier::external_body]
pub(crate) fn shuffle_ids(ids: &mut Vec<i64>)
    ensures
        final(ids)@.len() == old(ids)@.len(),
        final(ids)@.to_multiset() == old(ids)@.to_multiset(),
{
    rand::seq::SliceRandom::shuffle(ids.as_mut_slice(), &mut rand::thread_rng());
}

/// Seats the sixteen registered players of a game at random and builds the
/// schema of the game from that seating, unless the game's schema exists
/// already (`schema_exists`): then nothing is built, and nobody reseated.
pub fn round_group_players(player_ids: Vec<i64>, schema_exists: bool) -> (schema: Option<Vec<SchemaRow>>)
    requires
        player_ids@.len() == 16,
    ensures
        schema_exists ==> schema is None,
        !schema_exists ==> (schema matches Some(s) && exists|seating: Seq<i64>|
            #![trigger game_schema(seating)]
            seating.len() == 16 && seating.to_multiset() == player_ids@.to_multiset() && s@ == game_schema(
                seating,
            )),
{
    if schema_exists {
        return None;
    }
    let mut seating = player_ids;
    shuffle_ids(&mut seating);
    let schema = build_game_schema(&seating);
    assert(schema@ == game_schema(seating@));
    Some(schema)
}

/// What pressing "start" on a game does.
pub enum GameStart {
    /// Fewer (or more) than sixteen players are registered: the game does
    /// not start ("Количество игроков менее 16-ти.").
    TooFewPlayers,
    /// The game's schema exists already: the game goes on as it stands,
    /// with nobody reseated and no question order drawn again.
    Resume,
    /// The game starts with this schema.
    NewSchema(Vec<SchemaRow>),
}

/// A game starts only with sixteen players registered. The first start
/// seats their rows at random and builds the game's schema; when the schema
/// exists already (`schema_exists`, a start pressed again) the game goes on
/// as it is.
pub fn start_game(registration: &Vec<crate::registration::RegEntry>, schema_exists: bool) -> (start: GameStart)
    ensures
        crate::registration::count_players(registration@) != 16 ==> start is TooFewPlayers,
        crate::registration::count_players(registration@) == 16 && schema_exists ==> start is Resume,
        crate::registration::count_players(registration@) == 16 && !schema_exists ==> (start matches GameStart::NewSchema(
            s,
        ) && exists|seating: Seq<i64>|
            #![trigger game_schema(seating)]
            seating.to_multiset() == crate::registration::ids_of_kind(registration@, 0).to_multiset()
                && s@ == game_schema(seating)),
{
    let ids = crate::registration::ids_of_role(registration, 0);
    proof {
        crate::registration::lemma_ids_count(registration@);
    }
    if ids.len() != 16 {
        return GameStart::TooFewPlayers;
    }
    match round_group_players(ids, schema_exists) {
        None => GameStart::Resume,
        Some(schema) => GameStart::NewSchema(schema),
    }
}

} // verus!
