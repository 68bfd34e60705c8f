use chrono::Datelike;
use ez_vend::dates::{
    copy_form_error_keys, format_booth_date, iso_date, CalendarDate, CopyBoothFormData,
};
use ez_vend::locale::Locale;

fn today() -> CalendarDate {
    let now = chrono::Local::now().date_naive();
    CalendarDate { year: now.year(), month: now.month(), day: now.day() }
}

#[test]
fn copy_form_defaults_use_date_suffix_once() {
    let form = CopyBoothFormData::from_booth("Spring Fair", today());

    assert_eq!(form.date.len(), 10);
    assert_eq!(form.description, format!("Spring Fair ({})", form.date));
}

#[test]
fn copy_form_does_not_append_copy_copy_suffixes() {
    let form = CopyBoothFormData::from_booth("Spring Fair - Copy", today());

    assert!(form.description.starts_with("Spring Fair - Copy ("));
    assert!(!form.description.contains(" - Copy - Copy"));
}

#[test]
fn copy_form_dates_read_back() {
    let d = CalendarDate { year: 2026, month: 3, day: 5 };
    let form = CopyBoothFormData::from_booth("Fair", d);
    assert_eq!(form.date, "2026-03-05");
    assert_eq!(form.parse_date(), Some(d));
    let bad = CopyBoothFormData { description: String::new(), date: "2026-02-30".to_string() };
    assert_eq!(bad.parse_date(), None);
    let junk = CopyBoothFormData { description: String::new(), date: "invalid-date".to_string() };
    assert_eq!(junk.parse_date(), None);
}

#[test]
fn booth_dates_in_reports() {
    let d = CalendarDate { year: 2026, month: 3, day: 5 };
    assert_eq!(format_booth_date(d, Locale::DeDE), "5. März 2026");
    assert_eq!(format_booth_date(d, Locale::EnUS), "March 05, 2026");
    let e = CalendarDate { year: 987, month: 12, day: 31 };
    assert_eq!(format_booth_date(e, Locale::De), "31. Dezember 987");
    assert_eq!(format_booth_date(e, Locale::EnGB), "December 31, 0987");
    assert_eq!(iso_date(e), "0987-12-31");
    assert_eq!(iso_date(CalendarDate { year: 12345, month: 1, day: 2 }), "+12345-01-02");
    assert_eq!(iso_date(CalendarDate { year: -5, month: 1, day: 2 }), "-0005-01-02");
}

#[test]
fn iso_dates_match_chrono() {
    for (y, m, day) in [(2026, 3, 25), (1, 1, 1), (9999, 12, 31), (-44, 3, 15), (10000, 6, 1)] {
        let n = chrono::NaiveDate::from_ymd_opt(y, m, day).unwrap();
        let ours = iso_date(CalendarDate { year: y, month: m, day });
        assert_eq!(ours, n.format("%Y-%m-%d").to_string());
        let english = format_booth_date(CalendarDate { year: y, month: m, day }, Locale::En);
        assert_eq!(english, n.format("%B %d, %Y").to_string());
    }
}

#[test]
fn copy_form_is_checked_before_submitting() {
    let form = |description: &str, date: &str| CopyBoothFormData {
        description: description.to_string(),
        date: date.to_string(),
    };
    assert_eq!(form("Flohmarkt (2026-03-29)", "2026-03-29").errors(), (None, None));
    assert_eq!(
        form("   ", "").errors(),
        (Some("booth.form_errors.description_required"), Some("booth.form_errors.date_required"))
    );
    assert_eq!(
        form(&"ü".repeat(201), "2026-02-30").errors(),
        (Some("booth.form_errors.description_length"), Some("validation.date_invalid"))
    );
    assert_eq!(form(&"ü".repeat(200), "29.03.2026").errors(), (None, Some("validation.date_invalid")));
    assert_eq!(copy_form_error_keys("x", "2026-03-29", false), (None, Some("validation.date_invalid")));
    assert_eq!(copy_form_error_keys("x", " ", true), (None, Some("booth.form_errors.date_required")));
}

#[test]
fn copy_form_date_reads_back() {
    let day = CalendarDate { year: 2024, month: 2, day: 29 };
    assert_eq!(CopyBoothFormData::from_booth("Markt", day).parse_date(), Some(day));
    let first = CalendarDate { year: 7, month: 1, day: 1 };
    assert_eq!(CopyBoothFormData::from_booth("Alt", first).parse_date(), Some(first));
}
