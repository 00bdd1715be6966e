use gw2_wvw::order::{compare_text, order_snapshots};
use gw2_wvw::model::{
    get_naive_mock, KillScore, MapBonus, MapInfo, MapScore, MatchupOverview, Objective, Score,
    Skirmish, Team, World,
};
use gw2_wvw::persistence::{batch_outcome, plan_write, MemoryPersistence, PersistError, WriteAction};
use gw2_wvw::timestamp::{Timestamp, MAX_UNIX_SECONDS, MIN_UNIX_SECONDS};

fn ts(secs: i64) -> Timestamp {
    Timestamp::from_unix_seconds(secs).unwrap()
}

fn snapshot(id: &str, start: i64, end: i64, red: u64) -> MatchupOverview {
    let mut m = get_naive_mock(ts(start));
    m.id = id.to_string();
    m.end_time = ts(end);
    m.scores = Score { red, blue: 1, green: 2 };
    m
}

fn ids(found: &[&MatchupOverview]) -> Vec<String> {
    found.iter().map(|m| m.id.clone()).collect()
}

#[test]
fn saving_twice_keeps_one_record() {
    let mut store = MemoryPersistence::new();
    let s = snapshot("1-1", 1000, 2000, 5);
    assert!(store.save(vec![s.clone()]).is_ok());
    assert!(store.save(vec![s.clone()]).is_ok());
    let found = store.select_by_date_range(&ts(0), &ts(3000));
    assert_eq!(found.len(), 1);
    assert_eq!(*found[0], s);
}

#[test]
fn saving_same_key_overwrites_payload() {
    let mut store = MemoryPersistence::new();
    store.save_one(snapshot("1-1", 1000, 2000, 5));
    store.save_one(snapshot("1-1", 1000, 2500, 9));
    let found = store.select_by_date_range(&ts(0), &ts(3000));
    assert_eq!(found.len(), 1);
    assert_eq!(found[0].scores.red, 9);
    assert_eq!(found[0].end_time.unix_seconds(), 2500);
}

#[test]
fn same_identity_other_start_is_another_record() {
    let mut store = MemoryPersistence::new();
    store.save_one(snapshot("1-1", 1000, 2000, 5));
    store.save_one(snapshot("1-1", 1500, 2000, 6));
    let found = store.select_by_date_range(&ts(0), &ts(3000));
    assert_eq!(found.len(), 2);
    assert_eq!(found[0].start_time.unix_seconds(), 1000);
    assert_eq!(found[1].start_time.unix_seconds(), 1500);
}

#[test]
fn later_item_of_a_batch_wins() {
    let mut store = MemoryPersistence::new();
    let batch = vec![snapshot("2-1", 10, 20, 1), snapshot("2-1", 10, 20, 2)];
    assert!(store.save(batch).is_ok());
    let found = store.select_by_date_range(&ts(0), &ts(100));
    assert_eq!(found.len(), 1);
    assert_eq!(found[0].scores.red, 2);
}

#[test]
fn range_is_containment_with_inclusive_bounds() {
    let mut store = MemoryPersistence::new();
    store.save_one(snapshot("1-1", 1000, 2000, 0));
    assert_eq!(store.select_by_date_range(&ts(1000), &ts(2000)).len(), 1);
    assert_eq!(store.select_by_date_range(&ts(999), &ts(2001)).len(), 1);
    assert_eq!(store.select_by_date_range(&ts(1001), &ts(2000)).len(), 0);
    assert_eq!(store.select_by_date_range(&ts(1000), &ts(1999)).len(), 0);
    assert_eq!(store.select_by_date_range(&ts(1500), &ts(2500)).len(), 0);
    assert_eq!(store.select_by_date_range(&ts(500), &ts(1500)).len(), 0);
}

#[test]
fn empty_store_and_empty_range_give_nothing() {
    let mut store = MemoryPersistence::new();
    assert!(store.select_by_date_range(&ts(0), &ts(10)).is_empty());
    store.save_one(snapshot("1-1", 100, 200, 0));
    assert!(store.select_by_date_range(&ts(300), &ts(200)).is_empty());
    assert!(store.save(vec![]).is_ok());
    assert_eq!(store.select_by_date_range(&ts(MIN_UNIX_SECONDS), &ts(MAX_UNIX_SECONDS)).len(), 1);
}

#[test]
fn results_ascend_by_identity_then_start() {
    let mut store = MemoryPersistence::new();
    store.save_one(snapshot("1-7", 100, 400, 0));
    store.save_one(snapshot("1-2", 200, 500, 0));
    store.save_one(snapshot("1-2", 150, 450, 0));
    store.save_one(snapshot("1-10", 120, 300, 0));
    let found = store.select_by_date_range(&ts(0), &ts(1000));
    assert_eq!(ids(&found), vec!["1-10", "1-2", "1-2", "1-7"]);
    assert_eq!(found[1].start_time.unix_seconds(), 150);
    assert_eq!(found[2].start_time.unix_seconds(), 200);
}

#[test]
fn overlapping_windows_order_by_identity() {
    let mut store = MemoryPersistence::new();
    store.save_one(snapshot("1-7", 100, 400, 0));
    store.save_one(snapshot("1-2", 200, 500, 0));
    let found = store.select_by_date_range(&ts(0), &ts(1000));
    assert_eq!(ids(&found), vec!["1-2", "1-7"]);
}

#[test]
fn upsert_plan_follows_lookup() {
    assert_eq!(plan_write(Some(7u32)), WriteAction::Update(7));
    assert_eq!(plan_write::<u32>(None), WriteAction::Insert);
}

#[test]
fn batch_outcome_reports_first_failure() {
    assert_eq!(batch_outcome(&vec![]), Ok(()));
    assert_eq!(batch_outcome(&vec![Ok(()), Ok(())]), Ok(()));
    assert_eq!(
        batch_outcome(&vec![Ok(()), Err(PersistError::Conflict), Err(PersistError::Serialization)]),
        Err(PersistError::Conflict)
    );
    assert_eq!(
        batch_outcome(&vec![Err(PersistError::BackendUnavailable)]),
        Err(PersistError::BackendUnavailable)
    );
}

#[test]
fn naive_mock_is_all_zero() {
    let m = get_naive_mock(ts(77));
    assert_eq!(m.id, "1-1");
    assert_eq!(m.start_time, ts(77));
    assert_eq!(m.end_time, ts(77));
    assert_eq!(m.scores, Score { red: 0, blue: 0, green: 0 });
    assert_eq!(m.worlds, World { red: 0, blue: 0, green: 0 });
    assert_eq!(m.kills, KillScore { red: 0, blue: 0, green: 0 });
    assert_eq!(m.all_worlds, Team { red: vec![0], blue: vec![0], green: vec![0] });
    assert!(m.skirmishes.is_empty());
    assert!(m.maps.is_empty());
}

#[test]
fn full_snapshot_is_stored_whole() {
    let mut m = snapshot("3-4", 10, 20, 1);
    m.skirmishes.push(Skirmish {
        id: 1,
        scores: Score { red: 1, blue: 2, green: 3 },
        map_scores: vec![MapScore { kind: "Center".to_string(), scores: Score { red: 1, blue: 0, green: 0 } }],
    });
    m.maps.push(MapInfo {
        id: 38,
        kind: "Center".to_string(),
        scores: Score { red: 4, blue: 5, green: 6 },
        bonuses: vec![MapBonus { kind: "Bloodlust".to_string(), owner: "Red".to_string() }],
        objectives: vec![Objective {
            id: "38-6".to_string(),
            kind: "Keep".to_string(),
            owner: "Blue".to_string(),
            last_flipped: "2023-05-12T18:00:00Z".to_string(),
            claimed_by: None,
            claimed_at: None,
            points_tick: 2,
            points_capture: 10,
            guild_upgrades: None,
            yaks_delivered: Some(3),
        }],
        deaths: KillScore { red: 0, blue: 0, green: 0 },
        kills: KillScore { red: 1, blue: 1, green: 1 },
    });
    let mut store = MemoryPersistence::new();
    store.save_one(m.clone());
    let found = store.select_by_date_range(&ts(10), &ts(20));
    assert_eq!(found.len(), 1);
    assert_eq!(*found[0], m);
    assert_eq!(found[0].maps[0].objectives[0].claimed_by, None);
}

#[test]
fn rows_are_ordered_by_identity_then_start() {
    let rows = vec![
        snapshot("1-7", 100, 400, 1),
        snapshot("1-2", 200, 500, 2),
        snapshot("1-2", 150, 450, 3),
        snapshot("1-7", 100, 400, 4),
        snapshot("", 0, 1, 5),
    ];
    let ordered = order_snapshots(rows);
    let keys: Vec<(String, i64)> =
        ordered.iter().map(|m| (m.id.clone(), m.start_time.unix_seconds())).collect();
    assert_eq!(
        keys,
        vec![
            ("".to_string(), 0),
            ("1-2".to_string(), 150),
            ("1-2".to_string(), 200),
            ("1-7".to_string(), 100),
            ("1-7".to_string(), 100)
        ]
    );
    let mut reds: Vec<u64> = ordered[3..].iter().map(|m| m.scores.red).collect();
    reds.sort();
    assert_eq!(reds, vec![1, 4]);
    assert!(order_snapshots(vec![]).is_empty());
}

#[test]
fn text_comparison_is_lexicographic() {
    assert!(compare_text("1-10", "1-2") < 0);
    assert!(compare_text("1-2", "1-10") > 0);
    assert_eq!(compare_text("abc", "abc"), 0);
    assert!(compare_text("ab", "abc") < 0);
    assert!(compare_text("", "a") < 0);
    assert!(compare_text("é", "z") > 0);
}
