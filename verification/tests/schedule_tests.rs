use svoyak::registration::RegEntry;
use svoyak::schedule::{build_game_schema, round_group_players, start_game, Foursome, GameStart, SchemaRow};

fn ids() -> Vec<i64> {
    (101..117).collect()
}

fn four(a: i64, b: i64, c: i64, d: i64) -> Option<Foursome> {
    Some(Foursome { p1: a, p2: b, p3: c, p4: d })
}

#[test]
fn schema_has_270_rows_in_three_tours_and_a_final() {
    let schema = build_game_schema(&ids());
    assert_eq!(schema.len(), 270);
    assert_eq!(schema[0], SchemaRow { tour: 1, round: 1, players: four(101, 102, 103, 104) });
    assert_eq!(schema[19].round, 1);
    assert_eq!(schema[20], SchemaRow { tour: 1, round: 2, players: four(105, 106, 107, 108) });
    assert_eq!(schema[79], SchemaRow { tour: 1, round: 4, players: four(113, 114, 115, 116) });
    // second tour: columns 1, 0, 2, 3
    assert_eq!(schema[80], SchemaRow { tour: 2, round: 1, players: four(102, 106, 110, 114) });
    assert_eq!(schema[100], SchemaRow { tour: 2, round: 2, players: four(101, 105, 109, 113) });
    assert_eq!(schema[120], SchemaRow { tour: 2, round: 3, players: four(103, 107, 111, 115) });
    assert_eq!(schema[140], SchemaRow { tour: 2, round: 4, players: four(104, 108, 112, 116) });
    // third tour: diagonals
    assert_eq!(schema[160], SchemaRow { tour: 3, round: 1, players: four(101, 106, 111, 116) });
    assert_eq!(schema[180], SchemaRow { tour: 3, round: 2, players: four(105, 110, 115, 104) });
    assert_eq!(schema[239], SchemaRow { tour: 3, round: 4, players: four(113, 102, 107, 112) });
    // the final: players set later
    assert_eq!(schema[240], SchemaRow { tour: 4, round: 1, players: None });
    assert_eq!(schema[269], SchemaRow { tour: 4, round: 1, players: None });
}

#[test]
fn every_player_plays_once_per_tour() {
    let schema = build_game_schema(&ids());
    for tour in 1..=3u8 {
        for p in ids() {
            let rounds: std::collections::BTreeSet<u8> = schema
                .iter()
                .filter(|r| r.tour == tour)
                .filter(|r| {
                    let f = r.players.unwrap();
                    f.p1 == p || f.p2 == p || f.p3 == p || f.p4 == p
                })
                .map(|r| r.round)
                .collect();
            assert_eq!(rounds.len(), 1);
        }
    }
}

#[test]
fn two_players_meet_in_at_most_one_tour() {
    let schema = build_game_schema(&ids());
    for x in ids() {
        for y in ids() {
            if x == y {
                continue;
            }
            let tours: std::collections::BTreeSet<u8> = schema[..240]
                .iter()
                .filter(|r| {
                    let f = r.players.unwrap();
                    let has = |p: i64| f.p1 == p || f.p2 == p || f.p3 == p || f.p4 == p;
                    has(x) && has(y)
                })
                .map(|r| r.tour)
                .collect();
            assert!(tours.len() <= 1);
        }
    }
}

#[test]
fn seating_is_a_shuffle_of_the_players() {
    assert!(round_group_players(ids(), true).is_none());
    let schema = round_group_players(ids(), false).unwrap();
    assert_eq!(schema.len(), 270);
    let mut seated: Vec<i64> = Vec::new();
    for round in 0..4 {
        let f = schema[round * 20].players.unwrap();
        seated.extend([f.p1, f.p2, f.p3, f.p4]);
    }
    seated.sort();
    assert_eq!(seated, ids());
}

#[test]
fn game_starts_only_with_sixteen_players() {
    let mut table: Vec<RegEntry> = ids().into_iter().map(RegEntry::Player).collect();
    table.push(RegEntry::Spectator(500));
    assert!(matches!(start_game(&table, false), GameStart::NewSchema(_)));
    assert!(matches!(start_game(&table, true), GameStart::Resume));
    table.pop();
    table.pop();
    assert!(matches!(start_game(&table, false), GameStart::TooFewPlayers));
}
