//! Properties that hold of every input, proved over the models of the modules.

use vstd::prelude::*;
use crate::column::Column;
use crate::entry::cell_warning;
use crate::lap_time::{fits_i64, fraction_ms, has_sign, lap_time_ms, seconds_ms, LapTimeError};
use crate::numeric::{
    all_digits, digit_value, digits_value, first_index, fold_digits, is_digit, is_first_index,
    lemma_first_index_is, u32_of, unsigned_body,
};
use crate::scoreboard::{
    outcome_view, page_outcome, row_draft, row_entry, row_width, Scoreboard, ScrapeError,
    RESULTS_TABLE_CLASS,
};
use crate::text::table_cells_of;

verus! {

/// Every character of a text that reads as a `u32` is a digit or its leading `+`.
proof fn lemma_u32_text_chars(s: Seq<char>)
    requires
        u32_of(s) is Some,
    ensures
        forall|i: int| 0 <= i < s.len() ==> is_digit(#[trigger] s[i]) || (i == 0 && s[i] == '+'),
{
    let b = unsigned_body(s);
    assert forall|i: int| 0 <= i < s.len() implies is_digit(#[trigger] s[i]) || (i == 0 && s[i] == '+') by {
        if s.len() > 0 && s[0] == '+' {
            if i > 0 {
                assert(s[i] == b[i - 1]);
            }
        } else {
            assert(s[i] == b[i]);
        }
    }
}

/// The milliseconds of a fraction of at most three digits: its value scaled to thousandths.
proof fn lemma_short_fraction(f: Seq<char>)
    requires
        all_digits(f),
        f.len() <= 3,
    ensures
        fraction_ms(f) == digits_value(f) * fraction_scale(f),
{
    if f.len() >= 1 {
        let f1 = f.drop_first();
        assert(digits_value(f) == fold_digits(digit_value(f[0]), f1));
        if f.len() >= 2 {
            let f2 = f1.drop_first();
            assert(f1[0] == f[1]);
            assert(fold_digits(digit_value(f[0]), f1) == fold_digits(
                digit_value(f[0]) * 10 + digit_value(f[1]),
                f2,
            ));
            if f.len() == 3 {
                let f3 = f2.drop_first();
                assert(f2[0] == f[2]);
                assert(fold_digits(digit_value(f[0]) * 10 + digit_value(f[1]), f2) == fold_digits(
                    (digit_value(f[0]) * 10 + digit_value(f[1])) * 10 + digit_value(f[2]),
                    f3,
                ));
                assert(f3.len() == 0);
            }
        }
    }
}

pub open spec fn fraction_scale(f: Seq<char>) -> nat {
    if f.len() == 0 {
        0
    } else if f.len() == 1 {
        100
    } else if f.len() == 2 {
        10
    } else {
        1
    }
}

/// A token `H:MM'SS.s`, whose hours and minutes read as `u32`, whose whole seconds are digits
/// and whose fraction has at most three digits, denotes exactly
/// `hours * 3_600_000 + minutes * 60_000 + seconds * 1000` milliseconds, wherever that
/// duration fits the `i64` result.
pub proof fn lap_time_of_hours_minutes_seconds(
    h: Seq<char>,
    m: Seq<char>,
    w: Seq<char>,
    f: Seq<char>,
)
    requires
        u32_of(h) is Some,
        u32_of(m) is Some,
        w.len() > 0,
        all_digits(w),
        all_digits(f),
        f.len() <= 3,
        fits_i64(
            u32_of(h)->0 * 3_600_000 + u32_of(m)->0 * 60_000 + digits_value(w) * 1000
                + digits_value(f) * fraction_scale(f),
        ),
    ensures
        lap_time_ms(h + seq![':'] + m + seq!['\''] + w + seq!['.'] + f) == Ok::<int, LapTimeError>(
            u32_of(h)->0 * 3_600_000 + u32_of(m)->0 * 60_000 + digits_value(w) * 1000
                + digits_value(f) * fraction_scale(f),
        ),
{
    let head = h + seq![':'] + m;
    let secs = w + seq!['.'] + f;
    let s = h + seq![':'] + m + seq!['\''] + w + seq!['.'] + f;
    assert(s =~= head + seq!['\''] + secs);
    lemma_u32_text_chars(h);
    lemma_u32_text_chars(m);
    let a = head.len() as int;
    assert forall|j: int| 0 <= j < a implies s[j] != '\'' by {
        assert(s[j] == head[j]);
        if j < h.len() {
            assert(head[j] == h[j]);
        } else if j > h.len() {
            assert(head[j] == m[j - h.len() - 1]);
        }
    }
    assert(is_first_index(s, '\'', a));
    lemma_first_index_is(s, '\'', a);
    assert(s.take(a) =~= head);
    assert(s.skip(a + 1) =~= secs);
    assert(is_first_index(head, ':', h.len() as int));
    lemma_first_index_is(head, ':', h.len() as int);
    assert(head.take(h.len() as int) =~= h);
    assert(head.skip(h.len() as int + 1) =~= m);
    assert(is_digit(w[0]));
    assert(!has_sign(secs));
    assert forall|j: int| 0 <= j < w.len() implies secs[j] != '.' by {
        assert(secs[j] == w[j]);
        assert(is_digit(w[j]));
    }
    assert(is_first_index(secs, '.', w.len() as int));
    lemma_first_index_is(secs, '.', w.len() as int);
    assert(secs.take(w.len() as int) =~= w);
    assert(secs.skip(w.len() as int + 1) =~= f);
    lemma_short_fraction(f);
    assert(seconds_ms(secs) == Some((digits_value(w) * 1000 + fraction_ms(f)) as int));
    if f.len() > 0 {
        assert(s.last() == f.last());
        assert(is_digit(f[f.len() - 1]));
    } else {
        assert(s.last() == '.');
    }
}

proof fn lemma_no_number(cols: Seq<Column>, cells: Seq<Seq<char>>, n: int)
    requires
        0 <= n <= row_width(cols, cells),
        forall|i: int|
            0 <= i < row_width(cols, cells) && #[trigger] cols[i] == Column::Number ==> u32_of(
                cells[i],
            ) is None,
    ensures
        row_draft(cols, cells, n).number is None,
    decreases n,
{
    if n > 0 {
        lemma_no_number(cols, cells, n - 1);
        assert(cols[n - 1] == Column::Number ==> u32_of(cells[n - 1]) is None);
    }
}

/// A row with no cell under a `#` column that reads as a number gives no entry, whatever
/// its team and entrant.
pub proof fn row_without_number_gives_no_entry(cols: Seq<Column>, cells: Seq<Seq<char>>)
    requires
        forall|i: int|
            0 <= i < row_width(cols, cells) && #[trigger] cols[i] == Column::Number ==> u32_of(
                cells[i],
            ) is None,
    ensures
        row_entry(cols, cells) is None,
{
    lemma_no_number(cols, cells, row_width(cols, cells));
}

/// The cells of a row once the cell of column `j`, if the row has one, is taken out.
pub open spec fn without_cell(cells: Seq<Seq<char>>, j: int) -> Seq<Seq<char>> {
    if j < cells.len() {
        cells.remove(j)
    } else {
        cells
    }
}

proof fn lemma_removed_column(cols: Seq<Column>, cells: Seq<Seq<char>>, j: int, n: int)
    requires
        0 <= j < cols.len(),
        cols[j] == Column::Unknown,
        0 <= n <= row_width(cols, cells),
    ensures
        n <= j ==> row_draft(cols, cells, n) == row_draft(cols.remove(j), without_cell(cells, j), n),
        n > j ==> row_draft(cols, cells, n) == row_draft(
            cols.remove(j),
            without_cell(cells, j),
            n - 1,
        ),
    decreases n,
{
    let rc = cols.remove(j);
    let rl = without_cell(cells, j);
    if n > 0 {
        lemma_removed_column(cols, cells, j, n - 1);
        if n <= j {
            assert(rc[n - 1] == cols[n - 1]);
            assert(rl[n - 1] == cells[n - 1]);
        } else if n > j + 1 {
            assert(j < cells.len());
            assert(rc[n - 2] == cols[n - 1]);
            assert(rl[n - 2] == cells[n - 1]);
        }
    }
}

/// A column whose header is unknown stops no other column: every row gives the entry it
/// would give if that column were not in the table at all, and its cells report nothing.
pub proof fn unknown_column_is_passed_over(cols: Seq<Column>, cells: Seq<Seq<char>>, j: int, row: usize)
    requires
        0 <= j < cols.len(),
        cols[j] == Column::Unknown,
    ensures
        row_entry(cols, cells) == row_entry(cols.remove(j), without_cell(cells, j)),
        forall|c: Seq<char>| #[trigger] cell_warning(row, Column::Unknown, c) is None,
{
    let rc = cols.remove(j);
    let rl = without_cell(cells, j);
    let n = row_width(cols, cells);
    lemma_removed_column(cols, cells, j, n);
    if j < cells.len() {
        assert(row_width(rc, rl) == n - 1);
    } else {
        assert(row_width(rc, rl) == n);
    }
}

/// A page without a table of the results class fails with `NoTable`; one whose results
/// table has no rows fails with `NoHeaderRow`.
pub proof fn missing_table_or_header_fails_page(html: Seq<char>)
    ensures
        table_cells_of(html, RESULTS_TABLE_CLASS@) is None ==> page_outcome(html) == Err::<
            crate::scoreboard::ScoreboardView,
            ScrapeError,
        >(ScrapeError::NoTable),
        table_cells_of(html, RESULTS_TABLE_CLASS@) == Some(Seq::<Seq<Seq<char>>>::empty())
            ==> page_outcome(html) == Err::<crate::scoreboard::ScoreboardView, ScrapeError>(
            ScrapeError::NoHeaderRow,
        ),
{
}

/// Reading one page twice gives the same entries and reports, or the same error.
pub proof fn rescrape_is_idempotent(
    html: Seq<char>,
    first: Result<Scoreboard, ScrapeError>,
    second: Result<Scoreboard, ScrapeError>,
)
    requires
        outcome_view(first) == page_outcome(html),
        outcome_view(second) == page_outcome(html),
    ensures
        outcome_view(first) == outcome_view(second),
{
}

} // verus!
