//! Reading a whole results table, and a whole results page, into a scoreboard.

use vstd::prelude::*;
use crate::column::{classify, column_of, Column};
use crate::entry::{
    cell_warning, draft_after, empty_draft, entry_of, missing_field, warnings_view, DraftView,
    EntryDraft, EntryView, RequiredField, ScoreboardEntry, Warning, WarningView,
};
use crate::text::{lower_of, lowercase, rows_view, table_cells, table_cells_of};

verus! {

/// Why nothing could be read from a page.
#[derive(Clone, Copy, Debug, PartialEq, Eq, Structural)]
pub enum ScrapeError {
    /// The server answered with a status other than success.
    Status(u16),
    /// The page has no results table.
    NoTable,
    /// The results table has no rows, so no header row.
    NoHeaderRow,
}

/// The entries read from a page, and what was reported on the way.
#[derive(Clone, Debug, PartialEq)]
pub struct Scoreboard {
    pub entries: Vec<ScoreboardEntry>,
    pub warnings: Vec<Warning>,
}

pub struct ScoreboardView {
    pub entries: Seq<EntryView>,
    pub warnings: Seq<WarningView>,
}

pub open spec fn entries_view(es: Seq<ScoreboardEntry>) -> Seq<EntryView> {
    es.map_values(|e: ScoreboardEntry| e@)
}

impl View for Scoreboard {
    type V = ScoreboardView;

    open spec fn view(&self) -> ScoreboardView {
        ScoreboardView { entries: entries_view(self.entries@), warnings: warnings_view(self.warnings@) }
    }
}

pub open spec fn outcome_view(r: Result<Scoreboard, ScrapeError>) -> Result<ScoreboardView, ScrapeError> {
    match r {
        Ok(s) => Ok(s@),
        Err(e) => Err(e),
    }
}

pub open spec fn cells_view(cells: Vec<String>) -> Seq<Seq<char>> {
    cells@.map_values(|c: String| c@)
}

/// The class that marks the results table of a page.
pub const RESULTS_TABLE_CLASS: &'static str = "NBT";

/// Whether an HTTP status is a success.
pub open spec fn is_success(code: u16) -> bool {
    200 <= code <= 299
}

/// Accepts a response status of the success class and refuses any other.
pub fn check_status(code: u16) -> (r: Result<(), ScrapeError>)
    ensures
        r == (if is_success(code) {
            Ok::<(), ScrapeError>(())
        } else {
            Err(ScrapeError::Status(code))
        }),
{
    if 200 <= code && code <= 299 {
        Ok(())
    } else {
        Err(ScrapeError::Status(code))
    }
}

pub open spec fn columns_of(names: Seq<Seq<char>>) -> Seq<Column> {
    names.map_values(|n: Seq<char>| column_of(n))
}

/// One report for each of the first `k` headers that names no known column.
pub open spec fn header_warnings(names: Seq<Seq<char>>, k: int) -> Seq<WarningView>
    decreases k,
{
    if k <= 0 {
        Seq::empty()
    } else {
        let w = header_warnings(names, k - 1);
        if column_of(names[k - 1]) == Column::Unknown {
            w.push(WarningView::UnknownColumn { column: (k - 1) as usize, name: names[k - 1] })
        } else {
            w
        }
    }
}

/// The number of cells of a row that are read: those under a header.
pub open spec fn row_width(cols: Seq<Column>, cells: Seq<Seq<char>>) -> int {
    if cols.len() < cells.len() {
        cols.len() as int
    } else {
        cells.len() as int
    }
}

/// The draft made by reading the first `n` cells of a row, left to right.
pub open spec fn row_draft(cols: Seq<Column>, cells: Seq<Seq<char>>, n: int) -> DraftView
    decreases n,
{
    if n <= 0 {
        empty_draft()
    } else {
        draft_after(row_draft(cols, cells, n - 1), cols[n - 1], cells[n - 1])
    }
}

/// What the first `n` cells of row `row` report.
pub open spec fn cell_warnings(row: usize, cols: Seq<Column>, cells: Seq<Seq<char>>, n: int) -> Seq<WarningView>
    decreases n,
{
    if n <= 0 {
        Seq::empty()
    } else {
        let w = cell_warnings(row, cols, cells, n - 1);
        match cell_warning(row, cols[n - 1], cells[n - 1]) {
            Some(x) => w.push(x),
            None => w,
        }
    }
}

/// The entry that a row gives, if it has every required field.
pub open spec fn row_entry(cols: Seq<Column>, cells: Seq<Seq<char>>) -> Option<EntryView> {
    entry_of(row_draft(cols, cells, row_width(cols, cells)))
}

/// What reading row `row` reports, ending with the missing field where it gives no entry.
pub open spec fn row_report(row: usize, cols: Seq<Column>, cells: Seq<Seq<char>>) -> Seq<WarningView> {
    let d = row_draft(cols, cells, row_width(cols, cells));
    let w = cell_warnings(row, cols, cells, row_width(cols, cells));
    if entry_of(d) is None {
        w.push(WarningView::IncompleteRow { row, missing: missing_field(d) })
    } else {
        w
    }
}

/// The entries of the data rows among the first `k` rows of a table; row 0 is the header.
pub open spec fn table_entries(cols: Seq<Column>, rows: Seq<Seq<Seq<char>>>, k: int) -> Seq<EntryView>
    decreases k,
{
    if k <= 1 {
        Seq::empty()
    } else {
        let e = table_entries(cols, rows, k - 1);
        match row_entry(cols, rows[k - 1]) {
            Some(x) => e.push(x),
            None => e,
        }
    }
}

/// What the data rows among the first `k` rows of a table report.
pub open spec fn table_warnings(cols: Seq<Column>, rows: Seq<Seq<Seq<char>>>, k: int) -> Seq<WarningView>
    decreases k,
{
    if k <= 1 {
        Seq::empty()
    } else {
        table_warnings(cols, rows, k - 1) + row_report((k - 1) as usize, cols, rows[k - 1])
    }
}

/// The scoreboard of a table whose lowercased header texts are `names`.
pub open spec fn scoreboard_of(names: Seq<Seq<char>>, rows: Seq<Seq<Seq<char>>>) -> ScoreboardView {
    let cols = columns_of(names);
    ScoreboardView {
        entries: table_entries(cols, rows, rows.len() as int),
        warnings: header_warnings(names, names.len() as int) + table_warnings(
            cols,
            rows,
            rows.len() as int,
        ),
    }
}

/// What a table gives: its first row is the header, lowercased.
pub open spec fn table_outcome(rows: Seq<Seq<Seq<char>>>) -> Result<ScoreboardView, ScrapeError> {
    if rows.len() == 0 {
        Err(ScrapeError::NoHeaderRow)
    } else {
        Ok(scoreboard_of(rows[0].map_values(|h: Seq<char>| lower_of(h)), rows))
    }
}

/// What a page gives: its results table, if it has one.
pub open spec fn page_outcome(html: Seq<char>) -> Result<ScoreboardView, ScrapeError> {
    match table_cells_of(html, RESULTS_TABLE_CLASS@) {
        Some(rows) => table_outcome(rows),
        None => Err(ScrapeError::NoTable),
    }
}

/// Reads the cells of row `row` under the columns `cols`, adds what they report to
/// `warnings`, and returns the entry that the row gives.
pub fn read_row(row: usize, cols: &Vec<Column>, cells: &Vec<String>, warnings: &mut Vec<Warning>) -> (r: Option<ScoreboardEntry>)
    ensures
        match r {
            Some(e) => row_entry(cols@, cells_view(*cells)) == Some(e@),
            None => row_entry(cols@, cells_view(*cells)) is None,
        },
        warnings_view(final(warnings)@) == warnings_view(old(warnings)@) + row_report(
            row,
            cols@,
            cells_view(*cells),
        ),
{
    let ghost cv = cells_view(*cells);
    let n = if cols.len() < cells.len() {
        cols.len()
    } else {
        cells.len()
    };
    assert(n == row_width(cols@, cv));
    let mut d = EntryDraft::new();
    let mut i: usize = 0;
    while i < n
        invariant
            0 <= i <= n,
            n == row_width(cols@, cv),
            cv == cells_view(*cells),
            d@ == row_draft(cols@, cv, i as int),
            warnings_view(warnings@) == warnings_view(old(warnings)@) + cell_warnings(row, cols@, cv, i as int),
        decreases n - i,
    {
        let w = d.apply_cell(row, cols[i], &cells[i]);
        let ghost before = warnings@;
        if let Some(x) = w {
            warnings.push(x);
            assert(warnings_view(warnings@) =~= warnings_view(before).push(x@));
        }
        i = i + 1;
    }
    let ghost dv = d@;
    match d.finish() {
        Ok(e) => Some(e),
        Err(missing) => {
            let ghost before = warnings@;
            let x = Warning::IncompleteRow { row, missing };
            warnings.push(x);
            assert(warnings_view(warnings@) =~= warnings_view(before).push(x@));
            None
        },
    }
}

/// Reads the data rows of `table` (all rows but the first) under the lowercased header
/// texts `names`.
pub fn read_rows(names: &Vec<String>, table: &Vec<Vec<String>>) -> (r: Scoreboard)
    ensures
        r@ == scoreboard_of(cells_view(*names), rows_view(*table)),
{
    let ghost nv = cells_view(*names);
    let ghost rv = rows_view(*table);
    let mut cols: Vec<Column> = Vec::new();
    let mut warnings: Vec<Warning> = Vec::new();
    let mut i: usize = 0;
    while i < names.len()
        invariant
            0 <= i <= names@.len(),
            nv == cells_view(*names),
            cols@ == columns_of(nv).take(i as int),
            warnings_view(warnings@) == header_warnings(nv, i as int),
        decreases names@.len() - i,
    {
        let col = classify(names[i].as_str());
        cols.push(col);
        assert(cols@ =~= columns_of(nv).take(i + 1));
        if col == Column::Unknown {
            let ghost before = warnings@;
            let x = Warning::UnknownColumn { column: i, name: names[i].clone() };
            warnings.push(x);
            assert(warnings_view(warnings@) =~= warnings_view(before).push(x@));
        }
        i = i + 1;
    }
    assert(cols@ =~= columns_of(nv));
    let ghost hw = warnings_view(warnings@);
    let mut entries: Vec<ScoreboardEntry> = Vec::new();
    let mut k: usize = 1;
    assert(hw =~= hw + table_warnings(cols@, rv, 1));
    while k < table.len()
        invariant
            1 <= k,
            k <= table@.len() || k == 1,
            rv == rows_view(*table),
            cols@ == columns_of(nv),
            entries_view(entries@) == table_entries(cols@, rv, k as int),
            warnings_view(warnings@) == hw + table_warnings(cols@, rv, k as int),
        decreases table@.len() - k,
    {
        assert(cells_view(table@[k as int]) =~= rv[k as int]);
        let e = read_row(k, &cols, &table[k], &mut warnings);
        assert(warnings_view(warnings@) =~= hw + table_warnings(cols@, rv, k + 1));
        if let Some(x) = e {
            let ghost eb = entries@;
            entries.push(x);
            assert(entries_view(entries@) =~= entries_view(eb).push(x@));
        }
        k = k + 1;
    }
    proof {
        if table@.len() == 0 {
            assert(table_entries(cols@, rv, 0) == table_entries(cols@, rv, 1));
            assert(table_warnings(cols@, rv, 0) == table_warnings(cols@, rv, 1));
        }
    }
    Scoreboard { entries, warnings }
}

/// Reads a results table, given as the text of each cell of each row. The first row is
/// the header; its texts are lowercased before they are classified.
pub fn scoreboard_from_table(table: &Vec<Vec<String>>) -> (r: Result<Scoreboard, ScrapeError>)
    ensures
        outcome_view(r) == table_outcome(rows_view(*table)),
{
    if table.len() == 0 {
        return Err(ScrapeError::NoHeaderRow);
    }
    let header = &table[0];
    let mut names: Vec<String> = Vec::new();
    let mut i: usize = 0;
    while i < header.len()
        invariant
            0 <= i <= header@.len(),
            table@.len() > 0,
            header == &table@[0],
            cells_view(names) == cells_view(*header).take(i as int).map_values(|h: Seq<char>| lower_of(h)),
        decreases header@.len() - i,
    {
        let ghost before = names;
        let lower = lowercase(header[i].as_str());
        names.push(lower);
        assert(cells_view(names) =~= cells_view(before).push(lower@));
        assert(cells_view(names) =~= cells_view(*header).take(i + 1).map_values(|h: Seq<char>| lower_of(h)));
        i = i + 1;
    }
    assert(cells_view(*header).take(header@.len() as int) =~= cells_view(*header));
    assert(cells_view(*header) =~= rows_view(*table)[0]);
    Ok(read_rows(&names, table))
}

/// Reads the scoreboard of a results page from its HTML.
pub fn scoreboard_from_html(html: &str) -> (r: Result<Scoreboard, ScrapeError>)
    ensures
        outcome_view(r) == page_outcome(html@),
{
    match table_cells(html, RESULTS_TABLE_CLASS) {
        Some(table) => scoreboard_from_table(&table),
        None => Err(ScrapeError::NoTable),
    }
}

} // verus!
