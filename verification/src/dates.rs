//! Calendar dates of booths: how they are written in reports and in forms,
//! and the form data of the copy-booth dialog.

use vstd::prelude::*;

use crate::locale::{is_german, Locale};
use crate::text::{
    append_chars, append_str, chars_of, decimal_chars, decimal_text, owned, push_char,
    trim_chars, trim_spec,
};

verus! {

/// A day of the proleptic Gregorian calendar.
#[derive(Clone, Copy, Debug, PartialEq, Eq, Structural)]
pub struct CalendarDate {
    pub year: i32,
    pub month: u32,
    pub day: u32,
}

/// The decimal digits of `n`, with zeros in front up to `width` characters.
pub fn padded_decimal_chars(n: u64, width: usize) -> (v: Vec<char>)
    ensures
        v@ == padded(decimal_text(n as nat), width as nat),
{
    let digits = decimal_chars(n);
    let mut v: Vec<char> = Vec::new();
    if digits.len() < width {
        let mut k: usize = 0;
        let fill = width - digits.len();
        while k < fill
            invariant
                k <= fill,
                fill == width - digits@.len(),
                v@ == Seq::new(k as nat, |i: int| '0'),
            decreases fill - k,
        {
            v.push('0');
            k = k + 1;
            assert(v@ =~= Seq::new(k as nat, |i: int| '0'));
        }
    }
    let mut i: usize = 0;
    let ghost front = v@;
    while i < digits.len()
        invariant
            i <= digits@.len(),
            v@ == front + digits@.take(i as int),
        decreases digits.len() - i,
    {
        v.push(digits[i]);
        i = i + 1;
        assert(v@ =~= front + digits@.take(i as int));
    }
    assert(digits@.take(digits.len() as int) =~= digits@);
    proof {
        if digits@.len() >= width {
            assert(front =~= Seq::<char>::empty());
            assert(v@ =~= digits@);
        }
    }
    v
}

/// `s` with `'0'` in front until it is `width` long.
pub open spec fn padded(s: Seq<char>, width: nat) -> Seq<char> {
    if s.len() >= width {
        s
    } else {
        Seq::new((width - s.len()) as nat, |i: int| '0') + s
    }
}

/// `year` as chrono's `%Y` writes it: four digits for 0 to 9999, otherwise
/// with a sign and at least four digits.
pub open spec fn year_text(year: i32) -> Seq<char> {
    if 0 <= year && year <= 9999 {
        padded(decimal_text(year as nat), 4)
    } else if year > 9999 {
        seq!['+'] + decimal_text(year as nat)
    } else {
        seq!['-'] + padded(decimal_text((-(year as int)) as nat), 4)
    }
}

/// `year` as Rust's `Display` writes it.
pub open spec fn signed_text(year: i32) -> Seq<char> {
    if year >= 0 {
        decimal_text(year as nat)
    } else {
        seq!['-'] + decimal_text((-(year as int)) as nat)
    }
}

fn magnitude(year: i32) -> (m: u64)
    ensures
        m as int == if year >= 0 {
            year as int
        } else {
            -(year as int)
        },
{
    if year >= 0 {
        year as u64
    } else {
        let wide: i64 = year as i64;
        (-wide) as u64
    }
}

fn year_chars(year: i32) -> (v: Vec<char>)
    ensures
        v@ == year_text(year),
{
    let m = magnitude(year);
    if 0 <= year && year <= 9999 {
        padded_decimal_chars(m, 4)
    } else if year > 9999 {
        let mut v: Vec<char> = Vec::new();
        v.push('+');
        let d = decimal_chars(m);
        let mut i: usize = 0;
        while i < d.len()
            invariant
                i <= d@.len(),
                v@ == seq!['+'] + d@.take(i as int),
            decreases d.len() - i,
        {
            v.push(d[i]);
            i = i + 1;
            assert(v@ =~= seq!['+'] + d@.take(i as int));
        }
        assert(d@.take(d.len() as int) =~= d@);
        v
    } else {
        let mut v: Vec<char> = Vec::new();
        v.push('-');
        let d = padded_decimal_chars(m, 4);
        let mut i: usize = 0;
        while i < d.len()
            invariant
                i <= d@.len(),
                v@ == seq!['-'] + d@.take(i as int),
            decreases d.len() - i,
        {
            v.push(d[i]);
            i = i + 1;
            assert(v@ =~= seq!['-'] + d@.take(i as int));
        }
        assert(d@.take(d.len() as int) =~= d@);
        v
    }
}

fn signed_chars(year: i32) -> (v: Vec<char>)
    ensures
        v@ == signed_text(year),
{
    let m = magnitude(year);
    let d = decimal_chars(m);
    if year >= 0 {
        return d;
    }
    let mut v: Vec<char> = Vec::new();
    v.push('-');
    let mut i: usize = 0;
    while i < d.len()
        invariant
            i <= d@.len(),
            v@ == seq!['-'] + d@.take(i as int),
        decreases d.len() - i,
    {
        v.push(d[i]);
        i = i + 1;
        assert(v@ =~= seq!['-'] + d@.take(i as int));
    }
    assert(d@.take(d.len() as int) =~= d@);
    v
}

/// The date as `%Y-%m-%d`.
pub open spec fn iso_date_text(d: CalendarDate) -> Seq<char> {
    year_text(d.year) + seq!['-'] + padded(decimal_text(d.month as nat), 2) + seq!['-'] + padded(
        decimal_text(d.day as nat),
        2,
    )
}

/// Writes a date as `YYYY-MM-DD`.
pub fn iso_date(d: CalendarDate) -> (s: String)
    ensures
        s@ == iso_date_text(d),
{
    let mut s = String::new();
    append_chars(&mut s, &year_chars(d.year));
    push_char(&mut s, '-');
    append_chars(&mut s, &padded_decimal_chars(d.month as u64, 2));
    push_char(&mut s, '-');
    append_chars(&mut s, &padded_decimal_chars(d.day as u64, 2));
    s
}

pub open spec fn german_month(m: u32) -> Seq<char> {
    if m == 1 {
        "Januar"@
    } else if m == 2 {
        "Februar"@
    } else if m == 3 {
        "März"@
    } else if m == 4 {
        "April"@
    } else if m == 5 {
        "Mai"@
    } else if m == 6 {
        "Juni"@
    } else if m == 7 {
        "Juli"@
    } else if m == 8 {
        "August"@
    } else if m == 9 {
        "September"@
    } else if m == 10 {
        "Oktober"@
    } else if m == 11 {
        "November"@
    } else if m == 12 {
        "Dezember"@
    } else {
        ""@
    }
}

pub open spec fn english_month(m: u32) -> Seq<char> {
    if m == 1 {
        "January"@
    } else if m == 2 {
        "February"@
    } else if m == 3 {
        "March"@
    } else if m == 4 {
        "April"@
    } else if m == 5 {
        "May"@
    } else if m == 6 {
        "June"@
    } else if m == 7 {
        "July"@
    } else if m == 8 {
        "August"@
    } else if m == 9 {
        "September"@
    } else if m == 10 {
        "October"@
    } else if m == 11 {
        "November"@
    } else {
        "December"@
    }
}

fn german_month_name(m: u32) -> (r: &'static str)
    ensures
        r@ == german_month(m),
{
    match m {
        1 => "Januar",
        2 => "Februar",
        3 => "März",
        4 => "April",
        5 => "Mai",
        6 => "Juni",
        7 => "Juli",
        8 => "August",
        9 => "September",
        10 => "Oktober",
        11 => "November",
        12 => "Dezember",
        _ => "",
    }
}

fn english_month_name(m: u32) -> (r: &'static str)
    ensures
        r@ == english_month(m),
{
    match m {
        1 => "January",
        2 => "February",
        3 => "March",
        4 => "April",
        5 => "May",
        6 => "June",
        7 => "July",
        8 => "August",
        9 => "September",
        10 => "October",
        11 => "November",
        _ => "December",
    }
}

/// The German month names in calendar order.
pub open spec fn german_calendar() -> Seq<Seq<char>> {
    seq![
        "Januar"@, "Februar"@, "März"@, "April"@, "Mai"@, "Juni"@, "Juli"@, "August"@,
        "September"@, "Oktober"@, "November"@, "Dezember"@,
    ]
}

/// The English month names in calendar order.
pub open spec fn english_calendar() -> Seq<Seq<char>> {
    seq![
        "January"@, "February"@, "March"@, "April"@, "May"@, "June"@, "July"@, "August"@,
        "September"@, "October"@, "November"@, "December"@,
    ]
}

/// Month `m` of a booth's date is written as the `m`-th month of the calendar,
/// in German and in English, and a German date names its month in the text.
pub proof fn lemma_month_names_follow_calendar(d: CalendarDate, locale: Locale)
    requires
        1 <= d.month <= 12,
    ensures
        german_month(d.month) == german_calendar()[d.month - 1],
        english_month(d.month) == english_calendar()[d.month - 1],
        is_german(locale) ==> booth_date_text(d, locale) == decimal_text(d.day as nat) + ". "@
            + german_calendar()[d.month - 1] + " "@ + signed_text(d.year),
        !is_german(locale) ==> booth_date_text(d, locale).take(english_calendar()[d.month - 1].len() as int)
            == english_calendar()[d.month - 1],
{
    let m = english_month(d.month);
    if !is_german(locale) {
        let rest = " "@ + padded(decimal_text(d.day as nat), 2) + ", "@ + year_text(d.year);
        assert(booth_date_text(d, locale) =~= m + rest);
        assert((m + rest).take(m.len() as int) =~= m);
    }
}

/// How a booth's date is written in reports: `5. März 2026` in German,
/// `March 05, 2026` in English.
pub open spec fn booth_date_text(d: CalendarDate, locale: Locale) -> Seq<char> {
    if is_german(locale) {
        decimal_text(d.day as nat) + ". "@ + german_month(d.month) + " "@ + signed_text(d.year)
    } else {
        english_month(d.month) + " "@ + padded(decimal_text(d.day as nat), 2) + ", "@ + year_text(
            d.year,
        )
    }
}

/// Writes a booth's date for a report in the language of `locale`.
pub fn format_booth_date(date: CalendarDate, locale: Locale) -> (s: String)
    requires
        1 <= date.month <= 12,
    ensures
        s@ == booth_date_text(date, locale),
{
    let mut s = String::new();
    match locale {
        Locale::De | Locale::DeDE | Locale::DeAT | Locale::DeCH => {
            append_chars(&mut s, &decimal_chars(date.day as u64));
            append_str(&mut s, ". ");
            append_str(&mut s, german_month_name(date.month));
            append_str(&mut s, " ");
            append_chars(&mut s, &signed_chars(date.year));
        },
        Locale::En | Locale::EnUS | Locale::EnGB | Locale::EnEU => {
            append_str(&mut s, english_month_name(date.month));
            append_str(&mut s, " ");
            append_chars(&mut s, &padded_decimal_chars(date.day as u64, 2));
            append_str(&mut s, ", ");
            append_chars(&mut s, &year_chars(date.year));
        },
    }
    s
}

/// Whether `year` is a leap year of the Gregorian calendar.
pub open spec fn is_leap_year(year: i32) -> bool {
    year % 4 == 0 && (year % 100 != 0 || year % 400 == 0)
}

/// The number of days of a month.
pub open spec fn days_in_month(year: i32, month: u32) -> u32 {
    if month == 2 {
        if is_leap_year(year) {
            29
        } else {
            28
        }
    } else if month == 4 || month == 6 || month == 9 || month == 11 {
        30
    } else {
        31
    }
}

/// Whether a date exists in the (proleptic Gregorian) calendar.
pub open spec fn is_real_date(d: CalendarDate) -> bool {
    1 <= d.month <= 12 && 1 <= d.day <= days_in_month(d.year, d.month)
}

/// The date that `chrono::NaiveDate::parse_from_str(s, "%Y-%m-%d")` reads from
/// `s`, as year, month and day, or `None` when it reads none.
pub uninterp spec fn parsed_iso_date(s: Seq<char>) -> Option<(i32, u32, u32)>;

/// `chrono::NaiveDate::parse_from_str` with the format `%Y-%m-%d`. A date it
/// reads is a real date, so its month is 1 to 12 and its day 1 to 31; and it
/// reads back every real date of the years 0 to 9999 from the text that
/// chrono's own `%Y-%m-%d` writes for it.
#[verifier::external_body]
fn parse_iso_date(s: &str) -> (r: Option<CalendarDate>)
    ensures
        match parsed_iso_date(s@) {
            Some((y, m, d)) => r == Some(CalendarDate { year: y, month: m, day: d }),
            None => r is None,
        },
        r matches Some(d) ==> 1 <= d.month <= 12 && 1 <= d.day <= 31,
        forall|d: CalendarDate|
            is_real_date(d) && 0 <= d.year <= 9999 && s@ == #[trigger] iso_date_text(d) ==> r
                == Some(d),
{
    match chrono::NaiveDate::parse_from_str(s, "%Y-%m-%d") {
        Ok(date) => Some(
            CalendarDate {
                year: chrono::Datelike::year(&date),
                month: chrono::Datelike::month(&date),
                day: chrono::Datelike::day(&date),
            },
        ),
        Err(_) => None,
    }
}

/// Form data of the copy-booth dialog.
#[derive(Clone, Debug)]
pub struct CopyBoothFormData {
    pub description: String,
    pub date: String,
}

impl CopyBoothFormData {
    /// The defaults for copying the booth described by `description` on the
    /// day `today`: the description followed by ` (YYYY-MM-DD)`, and that date.
    pub fn from_booth(description: &str, today: CalendarDate) -> (f: CopyBoothFormData)
        ensures
            f.date@ == iso_date_text(today),
            f.description@ == description@ + " ("@ + iso_date_text(today) + ")"@,
    {
        let date = iso_date(today);
        let mut text = owned(description);
        append_str(&mut text, " (");
        append_str(&mut text, date.as_str());
        append_str(&mut text, ")");
        CopyBoothFormData { description: text, date }
    }

    /// The date of the form, when it is a `YYYY-MM-DD` date. The date that
    /// `from_booth` writes for a real day of the years 0 to 9999 reads back
    /// as that day.
    pub fn parse_date(&self) -> (r: Option<CalendarDate>)
        ensures
            match parsed_iso_date(self.date@) {
                Some((y, m, d)) => r == Some(CalendarDate { year: y, month: m, day: d }),
                None => r is None,
            },
            forall|d: CalendarDate|
                is_real_date(d) && 0 <= d.year <= 9999 && self.date@ == #[trigger] iso_date_text(d)
                    ==> r == Some(d),
    {
        parse_iso_date(self.date.as_str())
    }

    /// The messages of the form's two fields, by translation key, when it is
    /// submitted: the description is required and at most 200 characters,
    /// the date is required and must be a `YYYY-MM-DD` date.
    pub fn errors(&self) -> (r: (Option<&'static str>, Option<&'static str>))
        ensures
            r == copy_form_error_keys_spec(self.description@, self.date@, parsed_iso_date(self.date@) is Some),
    {
        let parses = self.parse_date().is_some();
        copy_form_error_keys(self.description.as_str(), self.date.as_str(), parses)
    }
}

/// The error keys of the copy form: `date_parses` tells whether the date is
/// a `YYYY-MM-DD` date.
pub open spec fn copy_form_error_keys_spec(description: Seq<char>, date: Seq<char>, date_parses: bool) -> (
    Option<&'static str>,
    Option<&'static str>,
) {
    (
        if trim_spec(description).len() == 0 {
            Some("booth.form_errors.description_required")
        } else if description.len() > 200 {
            Some("booth.form_errors.description_length")
        } else {
            None
        },
        if trim_spec(date).len() == 0 {
            Some("booth.form_errors.date_required")
        } else if !date_parses {
            Some("validation.date_invalid")
        } else {
            None
        },
    )
}

/// The error keys of the copy form, given whether its date is a
/// `YYYY-MM-DD` date.
pub fn copy_form_error_keys(description: &str, date: &str, date_parses: bool) -> (r: (
    Option<&'static str>,
    Option<&'static str>,
))
    ensures
        r == copy_form_error_keys_spec(description@, date@, date_parses),
{
    let d = chars_of(description);
    let description_error = if trim_chars(&d).len() == 0 {
        Some("booth.form_errors.description_required")
    } else if d.len() > 200 {
        Some("booth.form_errors.description_length")
    } else {
        None
    };
    let date_error = if trim_chars(&chars_of(date)).len() == 0 {
        Some("booth.form_errors.date_required")
    } else if !date_parses {
        Some("validation.date_invalid")
    } else {
        None
    };
    (description_error, date_error)
}

} // verus!
