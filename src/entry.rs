//! Scoreboard entries, built cell by cell from one table row.

use vstd::prelude::*;
use vstd::string::StrSliceExecFns;
use vstd::slice::slice_subrange;
use crate::column::Column;
use crate::lap_time::{lap_time_ms, parse_lap_time, LapTimeError};
use crate::numeric::{chars_of, decimal_of, find_char, first_index, parse_decimal, parse_u32, u32_of, Decimal};
use crate::text::{blank, is_blank};

verus! {

/// One participant's row of a scoreboard. Lap times are in milliseconds.
#[derive(Clone, Debug, PartialEq)]
pub struct ScoreboardEntry {
    pub position: Option<u32>,
    pub number: u32,
    pub team: String,
    pub entrant: String,
    pub lap_last: Option<i64>,
    pub lap_best: Option<i64>,
    pub speed: Option<Decimal>,
    pub laps: Option<u32>,
    pub distance: Option<Decimal>,
}

pub struct EntryView {
    pub position: Option<u32>,
    pub number: u32,
    pub team: Seq<char>,
    pub entrant: Seq<char>,
    pub lap_last: Option<i64>,
    pub lap_best: Option<i64>,
    pub speed: Option<Decimal>,
    pub laps: Option<u32>,
    pub distance: Option<Decimal>,
}

impl View for ScoreboardEntry {
    type V = EntryView;

    open spec fn view(&self) -> EntryView {
        EntryView {
            position: self.position,
            number: self.number,
            team: self.team@,
            entrant: self.entrant@,
            lap_last: self.lap_last,
            lap_best: self.lap_best,
            speed: self.speed,
            laps: self.laps,
            distance: self.distance,
        }
    }
}

/// An entry under construction: every field may still be missing.
#[derive(Clone, Debug)]
pub struct EntryDraft {
    pub position: Option<u32>,
    pub number: Option<u32>,
    pub team: Option<String>,
    pub entrant: Option<String>,
    pub lap_last: Option<i64>,
    pub lap_best: Option<i64>,
    pub speed: Option<Decimal>,
    pub laps: Option<u32>,
    pub distance: Option<Decimal>,
}

pub struct DraftView {
    pub position: Option<u32>,
    pub number: Option<u32>,
    pub team: Option<Seq<char>>,
    pub entrant: Option<Seq<char>>,
    pub lap_last: Option<i64>,
    pub lap_best: Option<i64>,
    pub speed: Option<Decimal>,
    pub laps: Option<u32>,
    pub distance: Option<Decimal>,
}

pub open spec fn text_view(t: Option<String>) -> Option<Seq<char>> {
    match t {
        Some(s) => Some(s@),
        None => None,
    }
}

impl View for EntryDraft {
    type V = DraftView;

    open spec fn view(&self) -> DraftView {
        DraftView {
            position: self.position,
            number: self.number,
            team: text_view(self.team),
            entrant: text_view(self.entrant),
            lap_last: self.lap_last,
            lap_best: self.lap_best,
            speed: self.speed,
            laps: self.laps,
            distance: self.distance,
        }
    }
}

/// A field that every entry must have.
#[derive(Clone, Copy, Debug, PartialEq, Eq, Structural)]
pub enum RequiredField {
    Number,
    Team,
    Entrant,
}

/// A problem met while reading a page that cost a field, a row or a column, not the page.
#[derive(Clone, Debug, PartialEq)]
pub enum Warning {
    /// A header that names no known column.
    UnknownColumn { column: usize, name: String },
    /// A lap-time cell that is not blank and does not read.
    InvalidLapTime { row: usize, text: String, error: LapTimeError },
    /// A result cell whose text before its `L` is no lap count.
    InvalidResult { row: usize, text: String },
    /// A row that lacks a required field; it gives no entry.
    IncompleteRow { row: usize, missing: RequiredField },
}

pub enum WarningView {
    UnknownColumn { column: usize, name: Seq<char> },
    InvalidLapTime { row: usize, text: Seq<char>, error: LapTimeError },
    InvalidResult { row: usize, text: Seq<char> },
    IncompleteRow { row: usize, missing: RequiredField },
}

impl View for Warning {
    type V = WarningView;

    open spec fn view(&self) -> WarningView {
        match self {
            Warning::UnknownColumn { column, name } => WarningView::UnknownColumn {
                column: *column,
                name: name@,
            },
            Warning::InvalidLapTime { row, text, error } => WarningView::InvalidLapTime {
                row: *row,
                text: text@,
                error: *error,
            },
            Warning::InvalidResult { row, text } => WarningView::InvalidResult {
                row: *row,
                text: text@,
            },
            Warning::IncompleteRow { row, missing } => WarningView::IncompleteRow {
                row: *row,
                missing: *missing,
            },
        }
    }
}

pub open spec fn warnings_view(ws: Seq<Warning>) -> Seq<WarningView> {
    ws.map_values(|w: Warning| w@)
}

pub open spec fn empty_draft() -> DraftView {
    DraftView {
        position: None,
        number: None,
        team: None,
        entrant: None,
        lap_last: None,
        lap_best: None,
        speed: None,
        laps: None,
        distance: None,
    }
}

/// The lap count in a result cell: the text before its first `L`.
pub open spec fn result_laps(c: Seq<char>) -> Option<u32> {
    match first_index(c, 'L') {
        Some(l) => u32_of(c.take(l)),
        None => None,
    }
}

pub open spec fn lap_ms(c: Seq<char>) -> Option<i64> {
    match lap_time_ms(c) {
        Ok(v) => Some(v as i64),
        Err(_) => None,
    }
}

/// The draft once the cell `c` of column `col` is read into it. A cell that does not read
/// leaves the draft as it was; a later cell for the same field replaces an earlier one.
pub open spec fn draft_after(d: DraftView, col: Column, c: Seq<char>) -> DraftView {
    match col {
        Column::Position => match u32_of(c) {
            Some(v) => DraftView { position: Some(v), ..d },
            None => d,
        },
        Column::Laps => match u32_of(c) {
            Some(v) => DraftView { laps: Some(v), ..d },
            None => d,
        },
        Column::ResultLaps => match result_laps(c) {
            Some(v) => DraftView { laps: Some(v), ..d },
            None => d,
        },
        Column::Speed => match decimal_of(c) {
            Some(v) => DraftView { speed: Some(v), ..d },
            None => d,
        },
        Column::Distance => match decimal_of(c) {
            Some(v) => DraftView { distance: Some(v), ..d },
            None => d,
        },
        Column::Number => match u32_of(c) {
            Some(v) => DraftView { number: Some(v), ..d },
            None => d,
        },
        Column::Team => DraftView { team: Some(c), ..d },
        Column::Entrant => DraftView { entrant: Some(c), ..d },
        Column::LastLap => match lap_ms(c) {
            Some(v) => DraftView { lap_last: Some(v), ..d },
            None => d,
        },
        Column::BestLap => match lap_ms(c) {
            Some(v) => DraftView { lap_best: Some(v), ..d },
            None => d,
        },
        Column::Ignored | Column::Unknown => d,
    }
}

/// What reading the cell `c` of column `col` in row `row` reports: a result whose count
/// does not read, or a lap time that does not read and is not blank.
pub open spec fn cell_warning(row: usize, col: Column, c: Seq<char>) -> Option<WarningView> {
    match col {
        Column::ResultLaps => match first_index(c, 'L') {
            Some(l) => if u32_of(c.take(l)) is None {
                Some(WarningView::InvalidResult { row, text: c.take(l) })
            } else {
                None
            },
            None => None,
        },
        Column::LastLap | Column::BestLap => match lap_time_ms(c) {
            Err(e) => if is_blank(c) {
                None
            } else {
                Some(WarningView::InvalidLapTime { row, text: c, error: e })
            },
            Ok(_) => None,
        },
        _ => None,
    }
}

/// The entry that a draft makes: it needs a number, a team and an entrant.
pub open spec fn entry_of(d: DraftView) -> Option<EntryView> {
    match (d.number, d.team, d.entrant) {
        (Some(number), Some(team), Some(entrant)) => Some(
            EntryView {
                position: d.position,
                number,
                team,
                entrant,
                lap_last: d.lap_last,
                lap_best: d.lap_best,
                speed: d.speed,
                laps: d.laps,
                distance: d.distance,
            },
        ),
        _ => None,
    }
}

/// The first required field, in the order number, team, entrant, that a draft lacks.
pub open spec fn missing_field(d: DraftView) -> RequiredField {
    if d.number is None {
        RequiredField::Number
    } else if d.team is None {
        RequiredField::Team
    } else {
        RequiredField::Entrant
    }
}

impl EntryDraft {
    pub fn new() -> (r: EntryDraft)
        ensures
            r@ == empty_draft(),
    {
        EntryDraft {
            position: None,
            number: None,
            team: None,
            entrant: None,
            lap_last: None,
            lap_best: None,
            speed: None,
            laps: None,
            distance: None,
        }
    }

    /// Reads the cell `cell` of column `col` of row `row` into the draft, and returns what
    /// it reports.
    pub fn apply_cell(&mut self, row: usize, col: Column, cell: &String) -> (w: Option<Warning>)
        ensures
            final(self)@ == draft_after(old(self)@, col, cell@),
            match w {
                Some(x) => cell_warning(row, col, cell@) == Some(x@),
                None => cell_warning(row, col, cell@) is None,
            },
    {
        let v = chars_of(cell.as_str());
        let s = v.as_slice();
        match col {
            Column::Position => {
                if let Some(n) = parse_u32(s) {
                    self.position = Some(n);
                }
                None
            },
            Column::Laps => {
                if let Some(n) = parse_u32(s) {
                    self.laps = Some(n);
                }
                None
            },
            Column::ResultLaps => {
                match find_char(s, 'L') {
                    Some(l) => {
                        let prefix = slice_subrange(s, 0, l);
                        assert(prefix@ =~= cell@.take(l as int));
                        match parse_u32(prefix) {
                            Some(n) => {
                                self.laps = Some(n);
                                None
                            },
                            None => {
                                let text = cell.as_str().substring_char(0, l).to_owned();
                                Some(Warning::InvalidResult { row, text })
                            },
                        }
                    },
                    None => None,
                }
            },
            Column::Speed => {
                if let Some(x) = parse_decimal(s) {
                    self.speed = Some(x);
                }
                None
            },
            Column::Distance => {
                if let Some(x) = parse_decimal(s) {
                    self.distance = Some(x);
                }
                None
            },
            Column::Number => {
                if let Some(n) = parse_u32(s) {
                    self.number = Some(n);
                }
                None
            },
            Column::Team => {
                self.team = Some(cell.clone());
                None
            },
            Column::Entrant => {
                self.entrant = Some(cell.clone());
                None
            },
            Column::LastLap | Column::BestLap => {
                match parse_lap_time(cell.as_str()) {
                    Ok(ms) => {
                        if col == Column::LastLap {
                            self.lap_last = Some(ms);
                        } else {
                            self.lap_best = Some(ms);
                        }
                        None
                    },
                    Err(error) => {
                        if blank(cell.as_str()) {
                            None
                        } else {
                            Some(Warning::InvalidLapTime { row, text: cell.clone(), error })
                        }
                    },
                }
            },
            Column::Ignored | Column::Unknown => None,
        }
    }

    /// The entry that the draft makes, or the first required field that it lacks.
    pub fn finish(self) -> (r: Result<ScoreboardEntry, RequiredField>)
        ensures
            match r {
                Ok(e) => entry_of(self@) == Some(e@),
                Err(f) => entry_of(self@) is None && f == missing_field(self@),
            },
    {
        match (self.number, self.team, self.entrant) {
            (Some(number), Some(team), Some(entrant)) => Ok(
                ScoreboardEntry {
                    position: self.position,
                    number,
                    team,
                    entrant,
                    lap_last: self.lap_last,
                    lap_best: self.lap_best,
                    speed: self.speed,
                    laps: self.laps,
                    distance: self.distance,
                },
            ),
            (None, _, _) => Err(RequiredField::Number),
            (_, None, _) => Err(RequiredField::Team),
            _ => Err(RequiredField::Entrant),
        }
    }
}

} // verus!
