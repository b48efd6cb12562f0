//! The scraper's configuration, and the lap rows that a scoreboard gives for storage.

use vstd::prelude::*;
use crate::entry::{EntryView, ScoreboardEntry};
use crate::scoreboard::entries_view;

verus! {

/// A race page to read, and the race it is stored under.
#[derive(Clone, Debug, PartialEq)]
pub struct RaceConfig {
    pub url: String,
    pub race_id: i32,
}

/// The database to write to, the numeric id of each team by display name, and the races to
/// read in turn. It is well formed where a team name stands at most once in `team_mappings`.
#[derive(Clone, Debug, PartialEq)]
pub struct Config {
    pub database_url: String,
    pub team_mappings: Vec<(String, i32)>,
    pub races: Vec<RaceConfig>,
}

/// One lap time to store, keyed by race, car number and lap number.
#[derive(Clone, Debug, PartialEq)]
pub struct LapRecord {
    pub race_id: i32,
    pub car_number: u32,
    pub team_id: Option<i32>,
    pub team_name: String,
    pub entrant_name: String,
    pub lap_number: u32,
    pub lap_time_ms: i64,
}

pub struct LapRecordView {
    pub race_id: i32,
    pub car_number: u32,
    pub team_id: Option<i32>,
    pub team_name: Seq<char>,
    pub entrant_name: Seq<char>,
    pub lap_number: u32,
    pub lap_time_ms: i64,
}

impl View for LapRecord {
    type V = LapRecordView;

    open spec fn view(&self) -> LapRecordView {
        LapRecordView {
            race_id: self.race_id,
            car_number: self.car_number,
            team_id: self.team_id,
            team_name: self.team_name@,
            entrant_name: self.entrant_name@,
            lap_number: self.lap_number,
            lap_time_ms: self.lap_time_ms,
        }
    }
}

impl Config {
    pub open spec fn well_formed(&self) -> bool {
        team_names_unique(teams_view(self.team_mappings@))
    }
}

/// No team name stands twice.
pub open spec fn team_names_unique(teams: Seq<(Seq<char>, i32)>) -> bool {
    forall|i: int, j: int|
        0 <= i < j < teams.len() ==> #[trigger] teams[i].0 != #[trigger] teams[j].0
}

pub open spec fn teams_view(teams: Seq<(String, i32)>) -> Seq<(Seq<char>, i32)> {
    teams.map_values(|t: (String, i32)| (t.0@, t.1))
}

pub open spec fn records_view(rs: Seq<LapRecord>) -> Seq<LapRecordView> {
    rs.map_values(|r: LapRecord| r@)
}

/// The id of the first team named `name`, if any is.
pub open spec fn team_id_of(teams: Seq<(Seq<char>, i32)>, name: Seq<char>) -> Option<i32>
    decreases teams.len(),
{
    if teams.len() == 0 {
        None
    } else if teams[0].0 == name {
        Some(teams[0].1)
    } else {
        team_id_of(teams.drop_first(), name)
    }
}

/// The row that an entry gives: only an entry with both a lap count and a last lap time
/// gives one.
pub open spec fn lap_record_of(race_id: i32, e: EntryView, teams: Seq<(Seq<char>, i32)>) -> Option<LapRecordView> {
    match (e.laps, e.lap_last) {
        (Some(lap), Some(ms)) => Some(
            LapRecordView {
                race_id,
                car_number: e.number,
                team_id: team_id_of(teams, e.team),
                team_name: e.team,
                entrant_name: e.entrant,
                lap_number: lap,
                lap_time_ms: ms,
            },
        ),
        _ => None,
    }
}

/// The rows that the first `k` entries give, in order.
pub open spec fn lap_records_of(race_id: i32, es: Seq<EntryView>, teams: Seq<(Seq<char>, i32)>, k: int) -> Seq<LapRecordView>
    decreases k,
{
    if k <= 0 {
        Seq::empty()
    } else {
        let rs = lap_records_of(race_id, es, teams, k - 1);
        match lap_record_of(race_id, es[k - 1], teams) {
            Some(r) => rs.push(r),
            None => rs,
        }
    }
}

/// Whether no team name stands twice in `teams`.
pub fn has_unique_team_names(teams: &Vec<(String, i32)>) -> (r: bool)
    ensures
        r == team_names_unique(teams_view(teams@)),
{
    let ghost tv = teams_view(teams@);
    let mut j: usize = 0;
    while j < teams.len()
        invariant
            0 <= j <= teams@.len(),
            tv == teams_view(teams@),
            forall|a: int, b: int| 0 <= a < b < j ==> #[trigger] tv[a].0 != #[trigger] tv[b].0,
        decreases teams@.len() - j,
    {
        let mut i: usize = 0;
        while i < j
            invariant
                0 <= i <= j < teams@.len(),
                tv == teams_view(teams@),
                forall|a: int, b: int| 0 <= a < b < j ==> #[trigger] tv[a].0 != #[trigger] tv[b].0,
                forall|a: int| 0 <= a < i ==> #[trigger] tv[a].0 != tv[j as int].0,
            decreases j - i,
        {
            if teams[i].0 == teams[j].0 {
                assert(tv[i as int].0 == tv[j as int].0);
                return false;
            }
            i = i + 1;
        }
        j = j + 1;
    }
    true
}

/// Looks up the id of the team named `name`. Where names are unique, it is the id paired
/// with `name`, if any is.
pub fn team_id(teams: &Vec<(String, i32)>, name: &String) -> (r: Option<i32>)
    requires
        team_names_unique(teams_view(teams@)),
    ensures
        r == team_id_of(teams_view(teams@), name@),
        match r {
            Some(id) => exists|i: int|
                0 <= i < teams@.len() && #[trigger] teams_view(teams@)[i] == (name@, id),
            None => forall|i: int|
                0 <= i < teams@.len() ==> #[trigger] teams_view(teams@)[i].0 != name@,
        },
{
    let ghost tv = teams_view(teams@);
    let mut i: usize = 0;
    assert(tv.skip(0) =~= tv);
    while i < teams.len()
        invariant
            0 <= i <= teams@.len(),
            tv == teams_view(teams@),
            team_id_of(tv, name@) == team_id_of(tv.skip(i as int), name@),
            forall|j: int| 0 <= j < i ==> #[trigger] tv[j].0 != name@,
        decreases teams@.len() - i,
    {
        assert(tv.skip(i as int).drop_first() =~= tv.skip(i + 1));
        if teams[i].0 == *name {
            assert(tv[i as int] == (name@, teams@[i as int].1));
            return Some(teams[i].1);
        }
        i = i + 1;
    }
    None
}

/// The rows to store for the entries of race `race_id`.
pub fn lap_records(race_id: i32, entries: &Vec<ScoreboardEntry>, teams: &Vec<(String, i32)>) -> (r: Vec<LapRecord>)
    requires
        team_names_unique(teams_view(teams@)),
    ensures
        records_view(r@) == lap_records_of(
            race_id,
            entries_view(entries@),
            teams_view(teams@),
            entries@.len() as int,
        ),
{
    let ghost ev = entries_view(entries@);
    let mut out: Vec<LapRecord> = Vec::new();
    let mut i: usize = 0;
    while i < entries.len()
        invariant
            0 <= i <= entries@.len(),
            ev == entries_view(entries@),
            team_names_unique(teams_view(teams@)),
            records_view(out@) == lap_records_of(race_id, ev, teams_view(teams@), i as int),
        decreases entries@.len() - i,
    {
        let e = &entries[i];
        assert(ev[i as int] == e@);
        match (e.laps, e.lap_last) {
            (Some(lap), Some(ms)) => {
                let ghost before = out@;
                let rec = LapRecord {
                    race_id,
                    car_number: e.number,
                    team_id: team_id(teams, &e.team),
                    team_name: e.team.clone(),
                    entrant_name: e.entrant.clone(),
                    lap_number: lap,
                    lap_time_ms: ms,
                };
                out.push(rec);
                assert(records_view(out@) =~= records_view(before).push(rec@));
            },
            _ => {},
        }
        i = i + 1;
    }
    out
}

} // verus!
