//! Registration for an announced game (`reg_game_{id}`): each row of the
//! table registers one person as a player, a spectator or a reserve player.
//! A game seats sixteen players; the spectator seats are set when the game
//! is announced.

use vstd::prelude::*;

verus! {

/// Players a game seats.
pub const GAME_SEATS: usize = 16;

/// One row of a game's registration table.
#[derive(Clone, Copy, PartialEq, Eq, Structural, Debug)]
pub enum RegEntry {
    Player(i64),
    Spectator(i64),
    ReservePlayer(i64),
}

/// Rows of `t` that register a player.
pub open spec fn count_players(t: Seq<RegEntry>) -> nat
    decreases t.len(),
{
    if t.len() == 0 {
        0
    } else {
        count_players(t.drop_last()) + if t.last() is Player {
            1nat
        } else {
            0nat
        }
    }
}

/// Rows of `t` that register a spectator.
pub open spec fn count_spectators(t: Seq<RegEntry>) -> nat
    decreases t.len(),
{
    if t.len() == 0 {
        0
    } else {
        count_spectators(t.drop_last()) + if t.last() is Spectator {
            1nat
        } else {
            0nat
        }
    }
}

/// The rows of `t` that are not in `removed`, in their order: what is left
/// after `DELETE ... WHERE` each of the `removed` rows.
pub open spec fn without(t: Seq<RegEntry>, removed: Seq<RegEntry>) -> Seq<RegEntry>
    decreases t.len(),
{
    if t.len() == 0 {
        t
    } else {
        let kept = without(t.drop_last(), removed);
        if removed.contains(t.last()) {
            kept
        } else {
            kept.push(t.last())
        }
    }
}

/// A change to a registration table: rows deleted, then a row inserted.
pub struct RegistrationChange {
    pub delete: Vec<RegEntry>,
    pub insert: Option<RegEntry>,
}

/// The table after `delete` and `insert` are applied to `t`.
pub open spec fn apply_change(t: Seq<RegEntry>, delete: Seq<RegEntry>, insert: Option<RegEntry>) -> Seq<
    RegEntry,
> {
    match insert {
        Some(e) => without(t, delete).push(e),
        None => without(t, delete),
    }
}

impl RegistrationChange {
    pub open spec fn applied_to(self, t: Seq<RegEntry>) -> Seq<RegEntry> {
        apply_change(t, self.delete@, self.insert)
    }
}

/// What registering `p` as a player changes: while the game has fewer than
/// sixteen players, `p` becomes a player and leaves the spectators and the
/// reserve; otherwise `p` is put in the reserve, unless already there.
pub open spec fn player_registration(t: Seq<RegEntry>, p: i64) -> (Seq<RegEntry>, Option<RegEntry>, bool) {
    if count_players(t) < 16 {
        let d1: Seq<RegEntry> = if t.contains(RegEntry::Spectator(p)) {
            seq![RegEntry::Spectator(p)]
        } else {
            seq![]
        };
        let d2: Seq<RegEntry> = if t.contains(RegEntry::ReservePlayer(p)) {
            seq![RegEntry::ReservePlayer(p)]
        } else {
            seq![]
        };
        (d1 + d2, Some(RegEntry::Player(p)), true)
    } else if t.contains(RegEntry::ReservePlayer(p)) {
        (seq![], None, false)
    } else {
        (seq![], Some(RegEntry::ReservePlayer(p)), false)
    }
}

fn count_players_exec(t: &Vec<RegEntry>) -> (n: usize)
    ensures
        n == count_players(t@),
{
    let mut n: usize = 0;
    let mut i: usize = 0;
    while i < t.len()
        invariant
            i <= t@.len(),
            n == count_players(t@.take(i as int)),
            n <= i,
        decreases t.len() - i,
    {
        assert(t@.take(i + 1).drop_last() =~= t@.take(i as int));
        if let RegEntry::Player(_) = t[i] {
            n = n + 1;
        }
        i = i + 1;
    }
    assert(t@.take(t@.len() as int) =~= t@);
    n
}

fn count_spectators_exec(t: &Vec<RegEntry>) -> (n: usize)
    ensures
        n == count_spectators(t@),
{
    let mut n: usize = 0;
    let mut i: usize = 0;
    while i < t.len()
        invariant
            i <= t@.len(),
            n == count_spectators(t@.take(i as int)),
            n <= i,
        decreases t.len() - i,
    {
        assert(t@.take(i + 1).drop_last() =~= t@.take(i as int));
        if let RegEntry::Spectator(_) = t[i] {
            n = n + 1;
        }
        i = i + 1;
    }
    assert(t@.take(t@.len() as int) =~= t@);
    n
}

fn contains_entry(t: &Vec<RegEntry>, e: RegEntry) -> (r: bool)
    ensures
        r == t@.contains(e),
{
    let mut i: usize = 0;
    while i < t.len()
        invariant
            i <= t@.len(),
            forall|k: int| 0 <= k < i ==> t@[k] != e,
        decreases t.len() - i,
    {
        if t[i] == e {
            return true;
        }
        i = i + 1;
    }
    false
}

/// Registers `player_id` as a player of the game whose registration table is
/// `table`: `Ok` when a seat was free (the player then leaves the spectators
/// and the reserve), `Err` when the game is full (the player is then put in
/// the reserve, once).
pub fn reg_game_player(table: &Vec<RegEntry>, player_id: i64) -> (res: (RegistrationChange, Result<(), ()>))
    ensures
        (res.0.delete@, res.0.insert, res.1 is Ok) == player_registration(table@, player_id),
{
    if count_players_exec(table) < GAME_SEATS {
        let mut delete: Vec<RegEntry> = Vec::new();
        if contains_entry(table, RegEntry::Spectator(player_id)) {
            delete.push(RegEntry::Spectator(player_id));
        }
        if contains_entry(table, RegEntry::ReservePlayer(player_id)) {
            delete.push(RegEntry::ReservePlayer(player_id));
        }
        proof {
            let d1: Seq<RegEntry> = if table@.contains(RegEntry::Spectator(player_id)) {
                seq![RegEntry::Spectator(player_id)]
            } else {
                seq![]
            };
            let d2: Seq<RegEntry> = if table@.contains(RegEntry::ReservePlayer(player_id)) {
                seq![RegEntry::ReservePlayer(player_id)]
            } else {
                seq![]
            };
            assert(delete@ =~= d1 + d2);
        }
        (RegistrationChange { delete, insert: Some(RegEntry::Player(player_id)) }, Ok(()))
    } else if contains_entry(table, RegEntry::ReservePlayer(player_id)) {
        (RegistrationChange { delete: Vec::new(), insert: None }, Err(()))
    } else {
        (RegistrationChange { delete: Vec::new(), insert: Some(RegEntry::ReservePlayer(player_id)) }, Err(()))
    }
}

/// Why a spectator was not registered.
#[derive(Clone, Copy, PartialEq, Eq, Debug)]
pub enum SpectatorRefusal {
    /// Every spectator seat is taken.
    NoSeats,
    /// The person is already a spectator of the game.
    AlreadyRegistered,
}

/// What registering `p` as a spectator gives: the row to insert, or why
/// none is.
pub open spec fn spectator_registration(t: Seq<RegEntry>, seats_spectator: int, p: i64) -> Result<
    RegEntry,
    SpectatorRefusal,
> {
    if count_spectators(t) >= seats_spectator {
        Err(SpectatorRefusal::NoSeats)
    } else if t.contains(RegEntry::Spectator(p)) {
        Err(SpectatorRefusal::AlreadyRegistered)
    } else {
        Ok(RegEntry::Spectator(p))
    }
}

/// Registers `player_id` as a spectator of the game whose registration
/// table is `table` and which has `seats_spectator` spectator seats. The
/// row to insert comes back with `Ok`.
pub fn reg_game_spectator(table: &Vec<RegEntry>, seats_spectator: i8, player_id: i64) -> (res: Result<
    RegEntry,
    SpectatorRefusal,
>)
    ensures
        res == spectator_registration(table@, seats_spectator as int, player_id),
{
    let count = count_spectators_exec(table);
    if seats_spectator > 0 && count < seats_spectator as usize {
        if contains_entry(table, RegEntry::Spectator(player_id)) {
            Err(SpectatorRefusal::AlreadyRegistered)
        } else {
            Ok(RegEntry::Spectator(player_id))
        }
    } else {
        Err(SpectatorRefusal::NoSeats)
    }
}

/// Withdrawing `player_id` from the game deletes every player row of theirs.
pub fn delete_game_player(player_id: i64) -> (change: RegistrationChange)
    ensures
        change.delete@ == seq![RegEntry::Player(player_id)],
        change.insert is None,
{
    RegistrationChange { delete: vec![RegEntry::Player(player_id)], insert: None }
}

/// Ids of the rows of `t` of the kind `kind` (0 players, 1 reserve players,
/// 2 spectators), in table order.
pub open spec fn ids_of_kind(t: Seq<RegEntry>, kind: int) -> Seq<i64>
    decreases t.len(),
{
    if t.len() == 0 {
        seq![]
    } else {
        let rest = ids_of_kind(t.drop_last(), kind);
        match t.last() {
            RegEntry::Player(id) => if kind == 0 {
                rest.push(id)
            } else {
                rest
            },
            RegEntry::ReservePlayer(id) => if kind == 1 {
                rest.push(id)
            } else {
                rest
            },
            RegEntry::Spectator(id) => if kind == 2 {
                rest.push(id)
            } else {
                rest
            },
        }
    }
}

fn ids_of(t: &Vec<RegEntry>, kind: u8) -> (ids: Vec<i64>)
    requires
        kind < 3,
    ensures
        ids@ == ids_of_kind(t@, kind as int),
{
    let mut ids: Vec<i64> = Vec::new();
    let mut i: usize = 0;
    while i < t.len()
        invariant
            kind < 3,
            i <= t@.len(),
            ids@ == ids_of_kind(t@.take(i as int), kind as int),
        decreases t.len() - i,
    {
        assert(t@.take(i + 1).drop_last() =~= t@.take(i as int));
        match t[i] {
            RegEntry::Player(id) => {
                if kind == 0 {
                    ids.push(id);
                }
            },
            RegEntry::ReservePlayer(id) => {
                if kind == 1 {
                    ids.push(id);
                }
            },
            RegEntry::Spectator(id) => {
                if kind == 2 {
                    ids.push(id);
                }
            },
        }
        i = i + 1;
    }
    assert(t@.take(t@.len() as int) =~= t@);
    ids
}

/// The ids of the rows of `table` of the kind `kind` (0 players, 1 reserve
/// players, 2 spectators), in table order.
pub fn ids_of_role(table: &Vec<RegEntry>, kind: u8) -> (ids: Vec<i64>)
    requires
        kind < 3,
    ensures
        ids@ == ids_of_kind(table@, kind as int),
{
    ids_of(table, kind)
}

/// The players' ids are as many as the player rows.
pub proof fn lemma_ids_count(t: Seq<RegEntry>)
    ensures
        ids_of_kind(t, 0).len() == count_players(t),
    decreases t.len(),
{
    if t.len() > 0 {
        lemma_ids_count(t.drop_last());
    }
}

/// Who is told that a seat has become free: the reserve players, in
/// registration order.
pub fn reserve_players(table: &Vec<RegEntry>) -> (ids: Vec<i64>)
    ensures
        ids@ == ids_of_kind(table@, 1),
{
    ids_of(table, 1)
}

/// Who is told that the game is cancelled: the players, then the reserve
/// players, then the spectators, each in registration order.
pub fn registered_people(table: &Vec<RegEntry>) -> (ids: Vec<i64>)
    ensures
        ids@ == ids_of_kind(table@, 0) + ids_of_kind(table@, 1) + ids_of_kind(table@, 2),
{
    let mut ids = ids_of(table, 0);
    let mut reserve = ids_of(table, 1);
    let mut spectators = ids_of(table, 2);
    ids.append(&mut reserve);
    ids.append(&mut spectators);
    ids
}

proof fn lemma_without_contains(t: Seq<RegEntry>, d: Seq<RegEntry>, e: RegEntry)
    ensures
        without(t, d).contains(e) <==> t.contains(e) && !d.contains(e),
    decreases t.len(),
{
    if t.len() > 0 {
        let init = t.drop_last();
        let last = t.last();
        let kept = without(init, d);
        lemma_without_contains(init, d, e);
        assert(t =~= init.push(last));
        if kept.contains(e) {
            let k = choose|k: int| 0 <= k < kept.len() && kept[k] == e;
            assert(kept.push(last)[k] == e);
            let j = choose|j: int| 0 <= j < init.len() && init[j] == e;
            assert(t[j] == e);
        }
        if !d.contains(last) {
            assert(kept.push(last)[kept.len() as int] == last);
            if kept.push(last).contains(e) && e != last {
                let k = choose|k: int| 0 <= k < kept.push(last).len() && kept.push(last)[k] == e;
                assert(kept[k] == e);
            }
        }
        if t.contains(e) && !d.contains(e) && e != last {
            let k = choose|k: int| 0 <= k < t.len() && t[k] == e;
            assert(init[k] == e);
        }
        assert(t[t.len() - 1] == last);
    }
}

proof fn lemma_count_players_push(t: Seq<RegEntry>, e: RegEntry)
    ensures
        count_players(t.push(e)) == count_players(t) + if e is Player {
            1nat
        } else {
            0nat
        },
        count_spectators(t.push(e)) == count_spectators(t) + if e is Spectator {
            1nat
        } else {
            0nat
        },
{
    assert(t.push(e).drop_last() =~= t);
}

proof fn lemma_count_players_without(t: Seq<RegEntry>, d: Seq<RegEntry>)
    ensures
        count_players(without(t, d)) <= count_players(t),
        (forall|k: int| 0 <= k < d.len() ==> !(#[trigger] d[k] is Player)) ==> count_players(without(t, d))
            == count_players(t),
    decreases t.len(),
{
    if t.len() > 0 {
        lemma_count_players_without(t.drop_last(), d);
        lemma_count_players_push(without(t.drop_last(), d), t.last());
        if d.contains(t.last()) && (forall|k: int| 0 <= k < d.len() ==> !(#[trigger] d[k] is Player)) {
            let k = choose|k: int| 0 <= k < d.len() && d[k] == t.last();
            assert(!(d[k] is Player));
        }
    }
}

/// A person whose registration as a player succeeds holds a player row of
/// the game and is neither a spectator nor a reserve player of it.
pub proof fn lemma_registered_player_holds_a_seat(t: Seq<RegEntry>, p: i64)
    requires
        player_registration(t, p).2,
    ensures
        ({
            let r = player_registration(t, p);
            let after = apply_change(t, r.0, r.1);
            &&& after.contains(RegEntry::Player(p))
            &&& !after.contains(RegEntry::Spectator(p))
            &&& !after.contains(RegEntry::ReservePlayer(p))
        }),
{
    let r = player_registration(t, p);
    let kept = without(t, r.0);
    let after = kept.push(RegEntry::Player(p));
    assert(after[kept.len() as int] == RegEntry::Player(p));
    lemma_without_contains(t, r.0, RegEntry::Spectator(p));
    lemma_without_contains(t, r.0, RegEntry::ReservePlayer(p));
    if t.contains(RegEntry::Spectator(p)) {
        assert(r.0[0] == RegEntry::Spectator(p));
    }
    if t.contains(RegEntry::ReservePlayer(p)) {
        assert(r.0[r.0.len() - 1] == RegEntry::ReservePlayer(p));
    }
    if after.contains(RegEntry::Spectator(p)) {
        let k = choose|k: int| 0 <= k < after.len() && after[k] == RegEntry::Spectator(p);
        assert(kept[k] == RegEntry::Spectator(p));
    }
    if after.contains(RegEntry::ReservePlayer(p)) {
        let k = choose|k: int| 0 <= k < after.len() && after[k] == RegEntry::ReservePlayer(p);
        assert(kept[k] == RegEntry::ReservePlayer(p));
    }
}

/// Registration never seats more than sixteen players: a table with at
/// most sixteen players keeps at most sixteen, whoever registers.
pub proof fn lemma_players_never_exceed_seats(t: Seq<RegEntry>, p: i64)
    requires
        count_players(t) <= 16,
    ensures
        ({
            let r = player_registration(t, p);
            count_players(apply_change(t, r.0, r.1)) <= 16
        }),
{
    let r = player_registration(t, p);
    lemma_count_players_without(t, r.0);
    match r.1 {
        Some(e) => lemma_count_players_push(without(t, r.0), e),
        None => {},
    }
}

/// A spectator is registered only on a free seat: the spectators never
/// outnumber the spectator seats, and nobody is registered twice as a
/// spectator.
pub proof fn lemma_spectators_never_exceed_seats(t: Seq<RegEntry>, seats: int, p: i64)
    requires
        spectator_registration(t, seats, p) is Ok,
    ensures
        count_spectators(t.push(spectator_registration(t, seats, p)->Ok_0)) <= seats,
        !t.contains(spectator_registration(t, seats, p)->Ok_0),
{
    lemma_count_players_push(t, RegEntry::Spectator(p));
}

/// A refused player is left in the reserve of the game.
pub proof fn lemma_refused_player_is_in_reserve(t: Seq<RegEntry>, p: i64)
    requires
        !player_registration(t, p).2,
    ensures
        ({
            let r = player_registration(t, p);
            apply_change(t, r.0, r.1).contains(RegEntry::ReservePlayer(p))
        }),
{
    let r = player_registration(t, p);
    assert(r.0 =~= Seq::<RegEntry>::empty());
    lemma_without_contains(t, r.0, RegEntry::ReservePlayer(p));
    if r.1 is Some {
        let kept = without(t, r.0);
        assert(kept.push(RegEntry::ReservePlayer(p))[kept.len() as int] == RegEntry::ReservePlayer(p));
    }
}

/// A withdrawn player holds no player row of the game any more, and every
/// other row stays.
pub proof fn lemma_withdrawn_player_leaves(t: Seq<RegEntry>, p: i64, e: RegEntry)
    ensures
        !apply_change(t, seq![RegEntry::Player(p)], None).contains(RegEntry::Player(p)),
        e != RegEntry::Player(p) ==> (apply_change(t, seq![RegEntry::Player(p)], None).contains(e)
            <==> t.contains(e)),
{
    let d = seq![RegEntry::Player(p)];
    assert(d[0] == RegEntry::Player(p));
    lemma_without_contains(t, d, RegEntry::Player(p));
    lemma_without_contains(t, d, e);
}

} // verus!
