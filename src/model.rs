//! The snapshot model: one matchup's state over a time window.

use vstd::prelude::*;
use crate::timestamp::Timestamp;

verus! {

/// Points of the three factions.
#[derive(Clone, Copy, Debug, PartialEq, Eq, Structural)]
pub struct Score {
    pub red: u64,
    pub blue: u64,
    pub green: u64,
}

/// Kills or deaths of the three factions.
#[derive(Clone, Copy, Debug, PartialEq, Eq, Structural)]
pub struct KillScore {
    pub red: u64,
    pub blue: u64,
    pub green: u64,
}

/// The main world of each faction.
#[derive(Clone, Copy, Debug, PartialEq, Eq, Structural)]
pub struct World {
    pub red: u64,
    pub blue: u64,
    pub green: u64,
}

/// Every world that fights on each faction's side.
#[derive(Clone, Debug, PartialEq, Eq)]
pub struct Team {
    pub red: Vec<u64>,
    pub blue: Vec<u64>,
    pub green: Vec<u64>,
}

/// The score of one map within a skirmish.
#[derive(Clone, Debug, PartialEq, Eq)]
pub struct MapScore {
    pub kind: String,
    pub scores: Score,
}

/// One sub-interval of a matchup, with its score breakdown.
#[derive(Clone, Debug, PartialEq, Eq)]
pub struct Skirmish {
    pub id: u64,
    pub scores: Score,
    pub map_scores: Vec<MapScore>,
}

/// A capturable objective on a map.
#[derive(Clone, Debug, PartialEq, Eq)]
pub struct Objective {
    pub id: String,
    pub kind: String,
    pub owner: String,
    /// ISO-8601 time of the last change of owner.
    pub last_flipped: String,
    pub claimed_by: Option<String>,
    /// ISO-8601 time of the claim.
    pub claimed_at: Option<String>,
    pub points_tick: u64,
    pub points_capture: u64,
    pub guild_upgrades: Option<Vec<u64>>,
    pub yaks_delivered: Option<u64>,
}

/// A bonus held on a map.
#[derive(Clone, Debug, PartialEq, Eq)]
pub struct MapBonus {
    pub kind: String,
    pub owner: String,
}

/// The state of one map.
#[derive(Clone, Debug, PartialEq, Eq)]
pub struct MapInfo {
    pub id: u64,
    pub kind: String,
    pub scores: Score,
    pub bonuses: Vec<MapBonus>,
    pub objectives: Vec<Objective>,
    pub deaths: KillScore,
    pub kills: KillScore,
}

/// A snapshot: one matchup's state over the window `start_time` to `end_time`.
#[derive(Clone, Debug, PartialEq, Eq)]
pub struct MatchupOverview {
    pub id: String,
    pub start_time: Timestamp,
    pub end_time: Timestamp,
    pub scores: Score,
    pub worlds: World,
    pub all_worlds: Team,
    pub deaths: KillScore,
    pub kills: KillScore,
    pub victory_points: Score,
    pub skirmishes: Vec<Skirmish>,
    pub maps: Vec<MapInfo>,
}

/// The composite identity key of a snapshot: its identity and the start of its window.
pub open spec fn key_of(m: MatchupOverview) -> (Seq<char>, int) {
    (m.id@, m.start_time@)
}

/// Whether two snapshots share their composite identity key.
pub open spec fn same_key(a: MatchupOverview, b: MatchupOverview) -> bool {
    a.id@ == b.id@ && a.start_time@ == b.start_time@
}

/// Three zero scores.
pub open spec fn zero_score() -> Score {
    Score { red: 0, blue: 0, green: 0 }
}

/// Three zero kill counts.
pub open spec fn zero_kills() -> KillScore {
    KillScore { red: 0, blue: 0, green: 0 }
}

/// A bare snapshot of matchup `1-1` at the instant `now`: every count zero,
/// one world of id 0 on each side, no skirmish and no map.
pub fn get_naive_mock(now: Timestamp) -> (r: MatchupOverview)
    ensures
        r.id@ == "1-1"@,
        r.start_time == now,
        r.end_time == now,
        r.scores == zero_score(),
        r.worlds == (World { red: 0, blue: 0, green: 0 }),
        r.all_worlds.red@ == seq![0u64],
        r.all_worlds.blue@ == seq![0u64],
        r.all_worlds.green@ == seq![0u64],
        r.deaths == zero_kills(),
        r.kills == zero_kills(),
        r.victory_points == zero_score(),
        r.skirmishes@.len() == 0,
        r.maps@.len() == 0,
{
    MatchupOverview {
        id: "1-1".to_owned(),
        start_time: now,
        end_time: now,
        scores: Score { red: 0, blue: 0, green: 0 },
        worlds: World { red: 0, blue: 0, green: 0 },
        all_worlds: Team { red: vec![0], blue: vec![0], green: vec![0] },
        deaths: KillScore { red: 0, blue: 0, green: 0 },
        kills: KillScore { red: 0, blue: 0, green: 0 },
        victory_points: Score { red: 0, blue: 0, green: 0 },
        skirmishes: Vec::new(),
        maps: Vec::new(),
    }
}

} // verus!
