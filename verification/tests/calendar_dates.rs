use chrono::{NaiveDate, TimeZone, Utc};

use investments::create_inv_form::CreateInvForm;
use investments::dates::{date_to_timestamp, parse_date};
use investments::renew_inv_form::RenewInvForm;
use investments::record::Investment;
use investments::validation::Field;

/// The widget pipeline the forms are fed from: `%Y-%m-%d` parsing with the
/// time component fixed to midnight UTC.
fn widget_parse(s: &str) -> Option<i64> {
    NaiveDate::parse_from_str(s, "%Y-%m-%d")
        .map(|date| {
            date.and_hms_opt(0, 0, 0)
                .map(|datetime| Utc.from_utc_datetime(&datetime))
        })
        .ok()
        .flatten()
        .map(|datetime| datetime.timestamp())
}

#[test]
fn known_dates_have_their_midnight_timestamps() {
    assert_eq!(parse_date("1970-01-01"), Some(0));
    assert_eq!(parse_date("1970-01-02"), Some(86400));
    assert_eq!(parse_date("2024-01-01"), Some(1704067200));
    assert_eq!(parse_date("2025-01-01"), Some(1735689600));
    assert_eq!(parse_date("2024-03-01"), Some(1709251200));
    assert_eq!(date_to_timestamp(2024, 1, 1), Some(1704067200));
    assert_eq!(date_to_timestamp(9999, 12, 31), Some(253402214400));
}

#[test]
fn dates_before_the_epoch_have_negative_timestamps() {
    assert_eq!(parse_date("1969-12-31"), Some(-86400));
    assert_eq!(parse_date("1900-01-01"), Some(-2208988800));
    assert_eq!(date_to_timestamp(1969, 12, 31), Some(-86400));
}

#[test]
fn unpadded_signed_and_spaced_forms_are_read() {
    assert_eq!(parse_date("2024-1-1"), Some(1704067200));
    assert_eq!(parse_date("+2024-01-01"), Some(1704067200));
    assert_eq!(parse_date("+0002024-01-01"), Some(1704067200));
    assert_eq!(parse_date(" 2024-01-01"), Some(1704067200));
    assert_eq!(parse_date("2024- 1- 1"), Some(1704067200));
}

#[test]
fn leap_years_are_respected() {
    assert_eq!(parse_date("2024-02-29"), Some(1709164800));
    assert_eq!(parse_date("2023-02-29"), None);
    assert_eq!(parse_date("2000-02-29"), Some(951782400));
    assert_eq!(parse_date("1900-02-29"), None);
}

#[test]
fn malformed_or_out_of_range_dates_are_refused() {
    assert_eq!(parse_date(""), None);
    assert_eq!(parse_date("2024/01/01"), None);
    assert_eq!(parse_date("2024-13-01"), None);
    assert_eq!(parse_date("2024-00-10"), None);
    assert_eq!(parse_date("2024-04-31"), None);
    assert_eq!(parse_date("02024-01-01"), None);
    assert_eq!(parse_date("2024-001-01"), None);
    assert_eq!(parse_date("2024-01-001"), None);
    assert_eq!(parse_date("2024-01-01 "), None);
    assert_eq!(parse_date("2024 -01-01"), None);
    assert_eq!(parse_date("-262144-01-01"), None);
    assert_eq!(parse_date("+262143-01-01"), None);
    assert_eq!(parse_date("10000-01-01"), None);
    assert_eq!(parse_date("the first"), None);
}

#[test]
fn parse_matches_the_widget_pipeline() {
    let samples = [
        "2024-01-01",
        "2024-1-1",
        "2025-01-01",
        "1970-01-01",
        "1969-12-31",
        "1900-01-01",
        "1900-02-29",
        "2000-02-29",
        "2024-02-29",
        "2023-02-29",
        "0000-01-01",
        "-0-01-01",
        "-0001-01-01",
        "+2024-01-01",
        "+0002024-01-01",
        "-262143-01-01",
        "-262144-01-01",
        "+262142-12-31",
        "+262143-01-01",
        "10000-01-01",
        "+10000-01-01",
        "99999999999999999999-01-01",
        " 2024-01-01",
        "\t2024-01-01",
        "\u{00A0}2024-01-01",
        "2024- 1- 1",
        "2024 -01-01",
        "2024-01-01 ",
        "2024-01-01x",
        "2024-13-01",
        "2024-0-10",
        "2024-00-10",
        "2024-04-31",
        "2024-004-01",
        "2024-01-001",
        "02024-01-01",
        "2024/01/01",
        "2024-01",
        "2024-",
        "+",
        "-",
        "",
        "the first",
    ];
    for s in samples {
        assert_eq!(parse_date(s), widget_parse(s), "for the text {:?}", s);
    }
}

#[test]
fn create_form_date_input_writes_the_parsed_date() {
    let mut form = CreateInvForm::new();
    form.update(CreateInvForm::date_input(Field::StartDate, "2024-01-01"));
    assert_eq!(form.state().start_date, Some(1704067200));
    // Unreadable text clears the date, as the picker wiring sends it.
    form.update(CreateInvForm::date_input(Field::StartDate, "soon"));
    assert_eq!(form.state().start_date, None);
}

#[test]
fn renew_form_date_input_writes_the_parsed_date() {
    let record = Investment {
        id: Some("0".to_string()),
        inv_name: "Car Fund".to_string(),
        name: "Alice".to_string(),
        inv_type: "FD".to_string(),
        return_type: "Ordinary".to_string(),
        inv_amount: 1000,
        return_amount: 1100,
        return_rate: 10,
        start_date: Some(1704067200),
        end_date: Some(1735689600),
        created_at: None,
        updated_at: None,
    };
    let mut form = RenewInvForm::new(record);
    form.update(RenewInvForm::date_input(Field::EndDate, "2026-01-01"));
    assert_eq!(form.investment().end_date, Some(1767225600));
    assert!(form.form_changed());
}
