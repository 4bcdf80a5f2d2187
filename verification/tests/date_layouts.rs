use budget_tracker::calendar::{parse_flexible_date, parse_optional_date, Date};

fn d(year: i32, month: u32, day: u32) -> Date {
    Date { year, month, day }
}

#[test]
fn every_accepted_layout_reads_the_same_day() {
    assert_eq!(parse_flexible_date("2024-03-07"), Some(d(2024, 3, 7)));
    assert_eq!(parse_flexible_date("2024/03/07"), Some(d(2024, 3, 7)));
    assert_eq!(parse_flexible_date("07/03/2024"), Some(d(2024, 3, 7)));
    assert_eq!(parse_flexible_date("07-03-2024"), Some(d(2024, 3, 7)));
}

#[test]
fn other_texts_are_not_dates() {
    assert_eq!(parse_flexible_date("March 7, 2024"), None);
    assert_eq!(parse_flexible_date("2024-02-30"), None);
    assert_eq!(parse_flexible_date(""), None);
}

#[test]
fn an_empty_optional_date_is_none() {
    assert_eq!(parse_optional_date(""), Ok(None));
    assert_eq!(parse_optional_date("2025-12-31"), Ok(Some(d(2025, 12, 31))));
    assert_eq!(parse_optional_date("31/12/2025"), Ok(Some(d(2025, 12, 31))));
    assert_eq!(parse_optional_date("soon"), Err(()));
}
