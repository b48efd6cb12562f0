use laptime_scraper::column::{classify, Column};
use laptime_scraper::config::{has_unique_team_names, lap_records, team_id};
use laptime_scraper::entry::{RequiredField, ScoreboardEntry, Warning};
use laptime_scraper::lap_time::{parse_lap_time, LapTimeError};
use laptime_scraper::numeric::{parse_decimal, parse_u32, Decimal};
use laptime_scraper::scoreboard::{
    check_status, scoreboard_from_html, scoreboard_from_table, ScrapeError,
};
use laptime_scraper::text::blank;

fn row(cells: &[&str]) -> Vec<String> {
    cells.iter().map(|c| c.to_string()).collect()
}

fn chars(s: &str) -> Vec<char> {
    s.chars().collect()
}

#[test]
fn lap_time_minutes_seconds() {
    assert_eq!(parse_lap_time("1'42.0"), Ok(102_000));
}

#[test]
fn lap_time_hours_minutes_seconds() {
    assert_eq!(parse_lap_time("1:2'42.0"), Ok(3_762_000));
    assert_eq!(parse_lap_time("2:05'07.125"), Ok(7_507_125));
}

#[test]
fn lap_time_seconds_only() {
    assert_eq!(parse_lap_time("42.0"), Ok(42_000));
    assert_eq!(parse_lap_time("42"), Ok(42_000));
    assert_eq!(parse_lap_time(".5"), Ok(500));
}

#[test]
fn lap_time_fraction_is_cut_to_milliseconds() {
    assert_eq!(parse_lap_time("1.2349"), Ok(1_234));
    assert_eq!(parse_lap_time("0'59.99"), Ok(59_990));
}

#[test]
fn lap_time_trailing_separator() {
    assert_eq!(parse_lap_time("1:"), Err(LapTimeError::TrailingSeparator));
    assert_eq!(parse_lap_time("1'"), Err(LapTimeError::TrailingSeparator));
    assert_eq!(parse_lap_time("1:2'"), Err(LapTimeError::TrailingSeparator));
}

#[test]
fn lap_time_malformed() {
    assert_eq!(parse_lap_time(""), Err(LapTimeError::Malformed));
    assert_eq!(parse_lap_time("abc"), Err(LapTimeError::Malformed));
    assert_eq!(parse_lap_time("1:42.0"), Err(LapTimeError::Malformed));
    assert_eq!(parse_lap_time("x'42.0"), Err(LapTimeError::Malformed));
    assert_eq!(parse_lap_time("1'2:3"), Err(LapTimeError::Malformed));
    assert_eq!(parse_lap_time("1'."), Err(LapTimeError::Malformed));
}

#[test]
fn lap_time_largest_hours() {
    assert_eq!(
        parse_lap_time("4294967295:0'0"),
        Ok(4_294_967_295i64 * 3_600_000)
    );
    assert_eq!(parse_lap_time("4294967296:0'0"), Err(LapTimeError::Malformed));
}

#[test]
fn lap_time_many_whole_seconds() {
    assert_eq!(parse_lap_time("5000000000"), Ok(5_000_000_000_000));
    assert_eq!(parse_lap_time("0'5000000000"), Ok(5_000_000_000_000));
    assert_eq!(parse_lap_time("0:0'5000000000"), Ok(5_000_000_000_000));
    assert_eq!(parse_lap_time("9223372036854775.807"), Ok(i64::MAX));
    assert_eq!(parse_lap_time("9223372036854775.808"), Err(LapTimeError::OutOfRange));
    assert_eq!(parse_lap_time("-9223372036854775.808"), Ok(i64::MIN));
    assert_eq!(
        parse_lap_time("99999999999999999999999"),
        Err(LapTimeError::OutOfRange)
    );
    assert_eq!(parse_lap_time("x:0'99999999999999999999999"), Err(LapTimeError::Malformed));
}

#[test]
fn lap_time_signed_seconds() {
    assert_eq!(parse_lap_time("-1.5"), Ok(-1_500));
    assert_eq!(parse_lap_time("+1.5"), Ok(1_500));
    assert_eq!(parse_lap_time("1'-5.0"), Ok(55_000));
    assert_eq!(parse_lap_time("-1.2349"), Ok(-1_234));
    assert_eq!(parse_lap_time("-"), Err(LapTimeError::Malformed));
}

#[test]
fn unsigned_numbers() {
    assert_eq!(parse_u32(&chars("12")), Some(12));
    assert_eq!(parse_u32(&chars("+7")), Some(7));
    assert_eq!(parse_u32(&chars("4294967295")), Some(u32::MAX));
    assert_eq!(parse_u32(&chars("4294967296")), None);
    assert_eq!(parse_u32(&chars("-1")), None);
    assert_eq!(parse_u32(&chars("")), None);
    assert_eq!(parse_u32(&chars("+")), None);
    assert_eq!(parse_u32(&chars(" 1")), None);
}

#[test]
fn decimal_numbers() {
    assert_eq!(
        parse_decimal(&chars("150.2")),
        Some(Decimal { negative: false, mantissa: 1502, scale: 1 })
    );
    assert_eq!(
        parse_decimal(&chars("-0.25")),
        Some(Decimal { negative: true, mantissa: 25, scale: 2 })
    );
    assert_eq!(
        parse_decimal(&chars("7")),
        Some(Decimal { negative: false, mantissa: 7, scale: 0 })
    );
    assert_eq!(parse_decimal(&chars("-")), None);
    assert_eq!(parse_decimal(&chars(".")), None);
    assert_eq!(parse_decimal(&chars("1.2.3")), None);
}

#[test]
fn column_names() {
    assert_eq!(classify("p"), Column::Position);
    assert_eq!(classify("#lps"), Column::Laps);
    assert_eq!(classify("result"), Column::ResultLaps);
    assert_eq!(classify("spd"), Column::Speed);
    assert_eq!(classify("dist"), Column::Distance);
    assert_eq!(classify("#"), Column::Number);
    assert_eq!(classify("team"), Column::Team);
    assert_eq!(classify("entrant"), Column::Entrant);
    assert_eq!(classify("last"), Column::LastLap);
    assert_eq!(classify("l-lap"), Column::LastLap);
    assert_eq!(classify("best"), Column::BestLap);
    assert_eq!(classify("gap"), Column::Ignored);
    assert_eq!(classify(""), Column::Ignored);
    assert_eq!(classify(" \t "), Column::Ignored);
    assert_eq!(classify("foo"), Column::Unknown);
    assert_eq!(classify("Team"), Column::Unknown);
}

#[test]
fn blank_text() {
    assert!(blank(""));
    assert!(blank("  \n"));
    assert!(blank("\u{a0}\u{3000}\t"));
    assert!(!blank(" a "));
}

#[test]
fn full_row_gives_one_entry() {
    let table = vec![
        row(&["#", "team", "entrant", "last", "best", "spd"]),
        row(&["12", "Acme Racing", "J. Doe", "1'42.0", "1'40.5", "150.2"]),
    ];
    let board = scoreboard_from_table(&table).unwrap();
    assert_eq!(board.entries.len(), 1);
    let e = &board.entries[0];
    assert_eq!(e.number, 12);
    assert_eq!(e.team, "Acme Racing");
    assert_eq!(e.entrant, "J. Doe");
    assert_eq!(e.lap_last, Some(102_000));
    assert_eq!(e.lap_best, Some(100_500));
    let speed = e.speed.unwrap();
    assert_eq!(speed, Decimal { negative: false, mantissa: 1502, scale: 1 });
    let as_float = speed.mantissa as f64 / 10f64.powi(speed.scale as i32);
    assert!((as_float - 150.2).abs() < 1e-9);
    assert_eq!(e.position, None);
    assert_eq!(e.laps, None);
    assert_eq!(e.distance, None);
    assert!(board.warnings.is_empty());
}

#[test]
fn row_without_number_is_dropped() {
    let table = vec![
        row(&["#", "team", "entrant"]),
        row(&["", "Acme Racing", "J. Doe"]),
    ];
    let board = scoreboard_from_table(&table).unwrap();
    assert!(board.entries.is_empty());
    assert_eq!(
        board.warnings,
        vec![Warning::IncompleteRow { row: 1, missing: RequiredField::Number }]
    );
}

#[test]
fn row_missing_entrant_names_it() {
    let table = vec![row(&["#", "team", "entrant"]), row(&["3", "Acme"])];
    let board = scoreboard_from_table(&table).unwrap();
    assert!(board.entries.is_empty());
    assert_eq!(
        board.warnings,
        vec![Warning::IncompleteRow { row: 1, missing: RequiredField::Entrant }]
    );
}

#[test]
fn unknown_column_does_not_stop_others() {
    let table = vec![
        row(&["#", "foo", "team", "entrant", "last"]),
        row(&["7", "whatever", "Team B", "A. Smith", "58.25"]),
        row(&["8", "other", "Team C", "B. Jones", "59"]),
    ];
    let board = scoreboard_from_table(&table).unwrap();
    assert_eq!(board.entries.len(), 2);
    assert_eq!(board.entries[0].number, 7);
    assert_eq!(board.entries[0].team, "Team B");
    assert_eq!(board.entries[0].lap_last, Some(58_250));
    assert_eq!(board.entries[1].lap_last, Some(59_000));
    assert_eq!(
        board.warnings,
        vec![Warning::UnknownColumn { column: 1, name: "foo".to_string() }]
    );
}

#[test]
fn header_is_lowercased() {
    let table = vec![
        row(&["#", "TEAM", "Entrant", "P", "#LPS"]),
        row(&["5", "Red", "C. Lee", "2", "31"]),
    ];
    let board = scoreboard_from_table(&table).unwrap();
    assert_eq!(board.entries.len(), 1);
    assert_eq!(board.entries[0].team, "Red");
    assert_eq!(board.entries[0].position, Some(2));
    assert_eq!(board.entries[0].laps, Some(31));
    assert!(board.warnings.is_empty());
}

#[test]
fn result_column_gives_laps() {
    let table = vec![
        row(&["#", "team", "entrant", "result"]),
        row(&["1", "A", "X", "45L"]),
        row(&["2", "B", "Y", "xL"]),
        row(&["3", "C", "Z", "DNF"]),
    ];
    let board = scoreboard_from_table(&table).unwrap();
    assert_eq!(board.entries.len(), 3);
    assert_eq!(board.entries[0].laps, Some(45));
    assert_eq!(board.entries[1].laps, None);
    assert_eq!(board.entries[2].laps, None);
    assert_eq!(
        board.warnings,
        vec![Warning::InvalidResult { row: 2, text: "x".to_string() }]
    );
}

#[test]
fn lap_time_warnings_only_for_non_blank() {
    let table = vec![
        row(&["#", "team", "entrant", "l-lap", "best"]),
        row(&["1", "A", "X", "  ", "bad"]),
    ];
    let board = scoreboard_from_table(&table).unwrap();
    assert_eq!(board.entries.len(), 1);
    assert_eq!(board.entries[0].lap_last, None);
    assert_eq!(board.entries[0].lap_best, None);
    assert_eq!(
        board.warnings,
        vec![Warning::InvalidLapTime {
            row: 1,
            text: "bad".to_string(),
            error: LapTimeError::Malformed
        }]
    );
}

#[test]
fn placeholder_numbers_stay_absent() {
    let table = vec![
        row(&["p", "#", "team", "entrant", "spd", "dist", "gap"]),
        row(&["-", "9", "A", "X", "-", "12.5", "+1 lap"]),
    ];
    let board = scoreboard_from_table(&table).unwrap();
    let e = &board.entries[0];
    assert_eq!(e.position, None);
    assert_eq!(e.speed, None);
    assert_eq!(e.distance, Some(Decimal { negative: false, mantissa: 125, scale: 1 }));
    assert!(board.warnings.is_empty());
}

#[test]
fn extra_cells_are_ignored() {
    let table = vec![
        row(&["#", "team", "entrant"]),
        row(&["4", "A", "X", "extra", "1'00.0"]),
    ];
    let board = scoreboard_from_table(&table).unwrap();
    assert_eq!(board.entries.len(), 1);
    assert_eq!(board.entries[0].number, 4);
}

#[test]
fn empty_table_has_no_header_row() {
    let table: Vec<Vec<String>> = vec![];
    assert_eq!(scoreboard_from_table(&table), Err(ScrapeError::NoHeaderRow));
}

#[test]
fn header_only_table_gives_no_entries() {
    let table = vec![row(&["#", "team", "entrant"])];
    let board = scoreboard_from_table(&table).unwrap();
    assert!(board.entries.is_empty());
    assert!(board.warnings.is_empty());
}

const PAGE: &str = "<html><body>\
<table class=\"other\"><tr><td>#</td></tr><tr><td>99</td></tr></table>\
<table class=\"wide NBT\">\
<tr><td>P</td><td>#</td><td>Team</td><td>Entrant</td><td>Last</td><td>Best</td><td>Spd</td></tr>\
<tr><td>1</td><td>12</td><td>Acme Racing</td><td>J. Doe</td><td>1'42.0</td><td>1'40.5</td><td>150.2</td></tr>\
<tr><td>2</td><td></td><td>No Number</td><td>K. Roe</td><td>1'43.0</td><td></td><td></td></tr>\
</table></body></html>";

#[test]
fn page_with_results_table() {
    let board = scoreboard_from_html(PAGE).unwrap();
    assert_eq!(board.entries.len(), 1);
    let e: &ScoreboardEntry = &board.entries[0];
    assert_eq!(e.position, Some(1));
    assert_eq!(e.number, 12);
    assert_eq!(e.team, "Acme Racing");
    assert_eq!(e.lap_best, Some(100_500));
    assert_eq!(
        board.warnings,
        vec![Warning::IncompleteRow { row: 2, missing: RequiredField::Number }]
    );
}

#[test]
fn page_without_marked_table() {
    let html = "<html><body><table class=\"results\"><tr><td>#</td></tr></table></body></html>";
    assert_eq!(scoreboard_from_html(html), Err(ScrapeError::NoTable));
    assert_eq!(scoreboard_from_html(""), Err(ScrapeError::NoTable));
}

#[test]
fn page_with_empty_marked_table() {
    let html = "<html><body><table class=\"NBT\"></table></body></html>";
    assert_eq!(scoreboard_from_html(html), Err(ScrapeError::NoHeaderRow));
}

#[test]
fn rescraping_gives_same_result() {
    let first = scoreboard_from_html(PAGE);
    let second = scoreboard_from_html(PAGE);
    assert_eq!(first, second);
}

#[test]
fn status_codes() {
    assert_eq!(check_status(200), Ok(()));
    assert_eq!(check_status(204), Ok(()));
    assert_eq!(check_status(299), Ok(()));
    assert_eq!(check_status(199), Err(ScrapeError::Status(199)));
    assert_eq!(check_status(301), Err(ScrapeError::Status(301)));
    assert_eq!(check_status(404), Err(ScrapeError::Status(404)));
}

#[test]
fn lap_rows_for_storage() {
    let table = vec![
        row(&["#", "team", "entrant", "#lps", "last"]),
        row(&["12", "Acme Racing", "J. Doe", "31", "1'42.0"]),
        row(&["13", "Unmapped", "K. Roe", "30", "1'43.5"]),
        row(&["14", "Acme Racing", "L. Poe", "", "1'44.0"]),
        row(&["15", "Acme Racing", "M. Moe", "29", ""]),
    ];
    let board = scoreboard_from_table(&table).unwrap();
    let teams = vec![("Acme Racing".to_string(), 4), ("Other".to_string(), 9)];
    let rows = lap_records(77, &board.entries, &teams);
    assert_eq!(rows.len(), 2);
    assert_eq!(rows[0].race_id, 77);
    assert_eq!(rows[0].car_number, 12);
    assert_eq!(rows[0].team_id, Some(4));
    assert_eq!(rows[0].team_name, "Acme Racing");
    assert_eq!(rows[0].entrant_name, "J. Doe");
    assert_eq!(rows[0].lap_number, 31);
    assert_eq!(rows[0].lap_time_ms, 102_000);
    assert_eq!(rows[1].car_number, 13);
    assert_eq!(rows[1].team_id, None);
    assert_eq!(rows[1].lap_time_ms, 103_500);
}

#[test]
fn team_names_unique() {
    let teams = vec![("A".to_string(), 1), ("B".to_string(), 2)];
    assert!(has_unique_team_names(&teams));
    let twice = vec![("A".to_string(), 1), ("B".to_string(), 2), ("A".to_string(), 3)];
    assert!(!has_unique_team_names(&twice));
    assert!(has_unique_team_names(&vec![]));
}

#[test]
fn team_lookup() {
    let teams = vec![("A".to_string(), 1), ("B".to_string(), 2)];
    assert_eq!(team_id(&teams, &"B".to_string()), Some(2));
    assert_eq!(team_id(&teams, &"C".to_string()), None);
}
