//! Text services taken from std and from the `select` HTML parser.

use vstd::prelude::*;
use select::document::Document;
use select::predicate::{Class, Name, Predicate};

verus! {

/// What `str::to_lowercase` makes of `s`.
pub uninterp spec fn lower_of(s: Seq<char>) -> Seq<char>;

/// The inner HTML of the cells of each row of the first table of class `class` in the
/// document that `html` parses to, or nothing where the document has no such table.
pub uninterp spec fn table_cells_of(html: Seq<char>, class: Seq<char>) -> Option<
    Seq<Seq<Seq<char>>>,
>;

/// The characters of Unicode's White_Space property, which `char::is_whitespace` tests.
pub open spec fn is_white_space(c: char) -> bool {
    ('\u{9}' <= c && c <= '\u{d}') || c == ' ' || c == '\u{85}' || c == '\u{a0}' || c
        == '\u{1680}' || ('\u{2000}' <= c && c <= '\u{200a}') || c == '\u{2028}' || c
        == '\u{2029}' || c == '\u{202f}' || c == '\u{205f}' || c == '\u{3000}'
}

/// Whether `s` is empty or white space alone, so that trimming leaves nothing.
pub open spec fn is_blank(s: Seq<char>) -> bool {
    forall|i: int| 0 <= i < s.len() ==> is_white_space(#[trigger] s[i])
}

pub open spec fn rows_view(rows: Vec<Vec<String>>) -> Seq<Seq<Seq<char>>> {
    rows@.map_values(|row: Vec<String>| row@.map_values(|c: String| c@))
}

/// Relies on `str::to_lowercase`: the result depends on the characters of `s` alone.
#[verifier::external_body]
pub(crate) fn lowercase(s: &str) -> (r: String)
    ensures
        r@ == lower_of(s@),
{
    s.to_lowercase()
}

/// Relies on `select`: `Document::from` parses the page, `find` with `Name("table")` and
/// `Class(class)` locates the tables carrying the class, `find(Name("tr"))` and
/// `find(Name("td"))` walk rows and cells in document order, and `Node::inner_html`
/// renders each cell. All of it depends on the two texts alone.
#[verifier::external_body]
pub(crate) fn table_cells(html: &str, class: &str) -> (r: Option<Vec<Vec<String>>>)
    ensures
        match r {
            Some(rows) => table_cells_of(html@, class@) == Some(rows_view(rows)),
            None => table_cells_of(html@, class@) is None,
        },
{
    let doc = Document::from(html);
    let table = doc.find(Name("table").and(Class(class))).next()?;
    let mut rows = Vec::new();
    for row in table.find(Name("tr")) {
        let mut cells = Vec::new();
        for cell in row.find(Name("td")) {
            cells.push(cell.inner_html());
        }
        rows.push(cells);
    }
    Some(rows)
}

/// Whether `s` is empty or white space alone.
pub fn blank(s: &str) -> (r: bool)
    ensures
        r == is_blank(s@),
{
    let v = crate::numeric::chars_of(s);
    let mut i: usize = 0;
    while i < v.len()
        invariant
            v@ == s@,
            0 <= i <= v@.len(),
            forall|j: int| 0 <= j < i ==> is_white_space(#[trigger] s@[j]),
        decreases v@.len() - i,
    {
        let c = v[i];
        let white = ('\u{9}' <= c && c <= '\u{d}') || c == ' ' || c == '\u{85}' || c == '\u{a0}'
            || c == '\u{1680}' || ('\u{2000}' <= c && c <= '\u{200a}') || c == '\u{2028}' || c
            == '\u{2029}' || c == '\u{202f}' || c == '\u{205f}' || c == '\u{3000}';
        if !white {
            return false;
        }
        i = i + 1;
    }
    true
}

} // verus!
