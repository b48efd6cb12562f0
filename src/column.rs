//! The meaning of a results-table column, read from its lowercased header text.

use vstd::prelude::*;
use crate::numeric::same_chars;
use crate::text::{blank, is_blank};

verus! {

/// The field that a column fills, if any.
#[derive(Clone, Copy, Debug, PartialEq, Eq, Structural)]
pub enum Column {
    /// `p`: the rank.
    Position,
    /// `#lps`: the completed-lap count.
    Laps,
    /// `result`: the lap count, written before an `L`.
    ResultLaps,
    /// `spd`
    Speed,
    /// `dist`
    Distance,
    /// `#`: the car number.
    Number,
    /// `team`
    Team,
    /// `entrant`
    Entrant,
    /// `last` or `l-lap`: the most recent lap time.
    LastLap,
    /// `best`: the best lap time.
    BestLap,
    /// `gap`, or a header that is blank: known to carry nothing used.
    Ignored,
    /// Any other header.
    Unknown,
}

/// The column that a lowercased header names.
pub open spec fn column_of(name: Seq<char>) -> Column {
    if name == ['p']@ {
        Column::Position
    } else if name == ['#', 'l', 'p', 's']@ {
        Column::Laps
    } else if name == ['r', 'e', 's', 'u', 'l', 't']@ {
        Column::ResultLaps
    } else if name == ['s', 'p', 'd']@ {
        Column::Speed
    } else if name == ['d', 'i', 's', 't']@ {
        Column::Distance
    } else if name == ['#']@ {
        Column::Number
    } else if name == ['t', 'e', 'a', 'm']@ {
        Column::Team
    } else if name == ['e', 'n', 't', 'r', 'a', 'n', 't']@ {
        Column::Entrant
    } else if name == ['l', 'a', 's', 't']@ || name == ['l', '-', 'l', 'a', 'p']@ {
        Column::LastLap
    } else if name == ['b', 'e', 's', 't']@ {
        Column::BestLap
    } else if name == ['g', 'a', 'p']@ || is_blank(name) {
        Column::Ignored
    } else {
        Column::Unknown
    }
}

/// Whether `s` holds the characters of `w`.
fn is_word<const N: usize>(s: &[char], w: [char; N]) -> (r: bool)
    ensures
        r == (s@ == w@),
{
    same_chars(s, w.as_slice())
}

/// Classifies a lowercased header.
pub fn classify(name: &str) -> (r: Column)
    ensures
        r == column_of(name@),
{
    let v = crate::numeric::chars_of(name);
    let s = v.as_slice();
    if is_word(s, ['p']) {
        Column::Position
    } else if is_word(s, ['#', 'l', 'p', 's']) {
        Column::Laps
    } else if is_word(s, ['r', 'e', 's', 'u', 'l', 't']) {
        Column::ResultLaps
    } else if is_word(s, ['s', 'p', 'd']) {
        Column::Speed
    } else if is_word(s, ['d', 'i', 's', 't']) {
        Column::Distance
    } else if is_word(s, ['#']) {
        Column::Number
    } else if is_word(s, ['t', 'e', 'a', 'm']) {
        Column::Team
    } else if is_word(s, ['e', 'n', 't', 'r', 'a', 'n', 't']) {
        Column::Entrant
    } else if is_word(s, ['l', 'a', 's', 't']) || is_word(s, ['l', '-', 'l', 'a', 'p']) {
        Column::LastLap
    } else if is_word(s, ['b', 'e', 's', 't']) {
        Column::BestLap
    } else if is_word(s, ['g', 'a', 'p']) || blank(name) {
        Column::Ignored
    } else {
        Column::Unknown
    }
}

} // verus!
