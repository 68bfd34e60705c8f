//! Field rules of the booth form: the digits-only vendor number constraint
//! (minimum and optional maximum), numeric inputs, and the list of exact vendor
//! numbers to omit.

use vstd::prelude::*;

use crate::text::{
    chars_of, is_ascii_digit, is_digit, parse_unsigned, parse_unsigned_spec,
    split_chars, split_spec, string_of, trim_chars, trim_spec, views,
};

use crate::translations::{lookup_text, Translations};

verus! {

/// Validation failures of booth settings.
#[derive(Debug, Clone, Copy, PartialEq, Eq, Structural)]
pub enum ValidationError {
    /// A digits-only bound is not a non-negative whole number.
    DigitsOnlyConstraintInvalidNumber,
    /// The digits-only minimum is above the maximum.
    DigitsOnlyMinMaxInvalid { min: usize, max: usize },
}

/// Errors of the booth domain rules that the form applies.
#[derive(Debug, Clone, Copy, PartialEq, Eq, Structural)]
pub enum DomainError {
    Validation(ValidationError),
}

/// What parsing a digits-only bound gives: empty input is no bound (allowed
/// only where `allow_empty`), else the trimmed text as a `usize`.
pub open spec fn digits_only_field_spec(value: Seq<char>, allow_empty: bool) -> Result<
    Option<usize>,
    DomainError,
> {
    let t = trim_spec(value);
    if t.len() == 0 {
        if allow_empty {
            Ok(None)
        } else {
            Err(DomainError::Validation(ValidationError::DigitsOnlyConstraintInvalidNumber))
        }
    } else {
        match parse_unsigned_spec(t, usize::MAX as nat) {
            Some(n) => Ok(Some(n as usize)),
            None => Err(DomainError::Validation(ValidationError::DigitsOnlyConstraintInvalidNumber)),
        }
    }
}

/// Parses one bound of the digits-only constraint.
pub fn parse_digits_only_field(value: &str, allow_empty: bool) -> (r: Result<
    Option<usize>,
    DomainError,
>)
    ensures
        r == digits_only_field_spec(value@, allow_empty),
{
    let t = trim_chars(&chars_of(value));
    if t.len() == 0 {
        return if allow_empty {
            Ok(None)
        } else {
            Err(DomainError::Validation(ValidationError::DigitsOnlyConstraintInvalidNumber))
        };
    }
    match parse_unsigned(&t, usize::MAX as u64) {
        Some(n) => Ok(Some(n as usize)),
        None => Err(DomainError::Validation(ValidationError::DigitsOnlyConstraintInvalidNumber)),
    }
}

/// The digits-only constraint is consistent: no maximum, or a maximum not
/// below the minimum.
pub fn validate_digits_only_constraints(min: usize, max: Option<usize>) -> (r: Result<
    (),
    DomainError,
>)
    ensures
        r == (match max {
            Some(m) if min > m => Err(
                DomainError::Validation(ValidationError::DigitsOnlyMinMaxInvalid { min, max: m }),
            ),
            _ => Ok(()),
        }),
{
    match max {
        Some(m) => if min > m {
            Err(DomainError::Validation(ValidationError::DigitsOnlyMinMaxInvalid { min, max: m }))
        } else {
            Ok(())
        },
        None => Ok(()),
    }
}

/// The ASCII digits of `value`, in order.
pub open spec fn digits_of(s: Seq<char>) -> Seq<char>
    decreases s.len(),
{
    if s.len() == 0 {
        s
    } else if is_digit(s.last()) {
        digits_of(s.drop_last()).push(s.last())
    } else {
        digits_of(s.drop_last())
    }
}

/// Keeps only the ASCII digits of a field's text.
pub fn sanitize_digits_only_field(value: &str) -> (r: String)
    ensures
        r@ == digits_of(value@),
{
    let v = chars_of(value);
    let mut out: Vec<char> = Vec::new();
    let mut i: usize = 0;
    while i < v.len()
        invariant
            i <= v@.len(),
            v@ == value@,
            out@ == digits_of(v@.take(i as int)),
        decreases v.len() - i,
    {
        assert(v@.take(i + 1).drop_last() =~= v@.take(i as int));
        if is_ascii_digit(v[i]) {
            out.push(v[i]);
        }
        i = i + 1;
        assert(out@ =~= digits_of(v@.take(i as int)));
    }
    assert(v@.take(v.len() as int) =~= v@);
    string_of(&out)
}

/// Which digits-only field of the form is in error.
#[derive(Debug, Clone, Copy, PartialEq, Eq, Structural)]
pub enum DigitsOnlyFieldValidation {
    MinInvalid,
    MaxInvalid,
    MinGreaterThanMax,
}

/// What checking the two digits-only fields gives.
pub open spec fn form_fields_spec(min: Seq<char>, max: Seq<char>) -> Option<
    DigitsOnlyFieldValidation,
> {
    match digits_only_field_spec(min, false) {
        Ok(Some(lo)) => match digits_only_field_spec(max, true) {
            Ok(hi) => match hi {
                Some(h) if lo > h => Some(DigitsOnlyFieldValidation::MinGreaterThanMax),
                _ => None,
            },
            Err(_) => Some(DigitsOnlyFieldValidation::MaxInvalid),
        },
        _ => Some(DigitsOnlyFieldValidation::MinInvalid),
    }
}

/// Checks the minimum and maximum fields of the digits-only constraint and
/// names the field in error, if any.
pub fn validate_digits_only_form_fields(min_input: &str, max_input: &str) -> (r: Option<
    DigitsOnlyFieldValidation,
>)
    ensures
        r == form_fields_spec(min_input@, max_input@),
{
    let parsed_min = match parse_digits_only_field(min_input, false) {
        Ok(Some(value)) => value,
        _ => return Some(DigitsOnlyFieldValidation::MinInvalid),
    };
    let parsed_max = match parse_digits_only_field(max_input, true) {
        Ok(value) => value,
        Err(_) => return Some(DigitsOnlyFieldValidation::MaxInvalid),
    };
    match validate_digits_only_constraints(parsed_min, parsed_max) {
        Err(_) => Some(DigitsOnlyFieldValidation::MinGreaterThanMax),
        Ok(()) => None,
    }
}

/// The digits-only constraint of a form: the parsed minimum and maximum.
pub fn parse_digits_only_config(min_input: &str, max_input: &str) -> (r: Result<
    (usize, Option<usize>),
    DomainError,
>)
    ensures
        r == (match digits_only_field_spec(min_input@, false) {
            Err(e) => Err(e),
            Ok(None) => Err(DomainError::Validation(ValidationError::DigitsOnlyConstraintInvalidNumber)),
            Ok(Some(lo)) => match digits_only_field_spec(max_input@, true) {
                Err(e) => Err(e),
                Ok(hi) => match hi {
                    Some(h) if lo > h => Err(
                        DomainError::Validation(
                            ValidationError::DigitsOnlyMinMaxInvalid { min: lo, max: h },
                        ),
                    ),
                    _ => Ok((lo, hi)),
                },
            },
        }),
{
    let min = match parse_digits_only_field(min_input, false)? {
        Some(v) => v,
        None => {
            return Err(DomainError::Validation(ValidationError::DigitsOnlyConstraintInvalidNumber));
        },
    };
    let max = parse_digits_only_field(max_input, true)?;
    validate_digits_only_constraints(min, max)?;
    Ok((min, max))
}

/// A numeric input of the omission-range editor: the trimmed text as a `u32`.
pub fn parse_u32_input(value: &str) -> (r: Option<u32>)
    ensures
        match parse_unsigned_spec(trim_spec(value@), u32::MAX as nat) {
            Some(n) => r == Some(n as u32),
            None => r is None,
        },
{
    let t = trim_chars(&chars_of(value));
    match parse_unsigned(&t, u32::MAX as u64) {
        Some(n) => Some(n as u32),
        None => None,
    }
}

/// The exact values of a comma-separated list: each trimmed, empty ones
/// dropped, and each value kept only at its first occurrence.
pub open spec fn exact_values(pieces: Seq<Seq<char>>) -> Seq<Seq<char>>
    decreases pieces.len(),
{
    if pieces.len() == 0 {
        Seq::<Seq<char>>::empty()
    } else {
        let before = exact_values(pieces.drop_last());
        let t = trim_spec(pieces.last());
        if t.len() == 0 || before.contains(t) {
            before
        } else {
            before.push(t)
        }
    }
}

fn contains_value(values: &Vec<Vec<char>>, t: &Vec<char>) -> (r: bool)
    ensures
        r == views(values@).contains(t@),
{
    let mut i: usize = 0;
    while i < values.len()
        invariant
            i <= values@.len(),
            forall|k: int| 0 <= k < i ==> values@[k]@ != t@,
        decreases values.len() - i,
    {
        if crate::text::chars_eq(&values[i], t) {
            assert(views(values@)[i as int] == t@);
            return true;
        }
        i = i + 1;
    }
    proof {
        if views(values@).contains(t@) {
            let k = choose|k: int| 0 <= k < views(values@).len() && views(values@)[k] == t@;
            assert(values@[k]@ == t@);
        }
    }
    false
}

/// Splits a comma-separated list of exact vendor numbers into distinct values.
pub fn parse_exact_omission_values(input: &str) -> (r: Vec<String>)
    ensures
        r@.len() == exact_values(split_spec(input@, ',')).len(),
        forall|k: int|
            0 <= k < r@.len() ==> #[trigger] r@[k]@ == exact_values(split_spec(input@, ','))[k],
{
    let chars = chars_of(input);
    let pieces = split_chars(&chars, ',');
    let ghost sp = split_spec(input@, ',');
    assert(views(pieces@) =~= sp);
    let mut values: Vec<Vec<char>> = Vec::new();
    let mut i: usize = 0;
    while i < pieces.len()
        invariant
            i <= pieces@.len(),
            views(pieces@) == sp,
            views(values@) == exact_values(sp.take(i as int)),
        decreases pieces.len() - i,
    {
        assert(sp.take(i + 1).drop_last() =~= sp.take(i as int));
        assert(sp.take(i + 1).last() == pieces@[i as int]@);
        let t = trim_chars(&pieces[i]);
        if t.len() > 0 && !contains_value(&values, &t) {
            values.push(t);
            assert(views(values@) =~= exact_values(sp.take(i + 1)));
        }
        i = i + 1;
    }
    assert(sp.take(pieces.len() as int) =~= sp);
    let mut r: Vec<String> = Vec::new();
    let mut k: usize = 0;
    while k < values.len()
        invariant
            k <= values@.len(),
            views(values@) == exact_values(sp),
            r@.len() == k,
            forall|m: int| 0 <= m < k ==> #[trigger] r@[m]@ == values@[m]@,
        decreases values.len() - k,
    {
        r.push(string_of(&values[k]));
        k = k + 1;
    }
    r
}

/// The values of an exact-omission list are distinct and non-empty, and every
/// non-empty entry of the list is among them.
pub proof fn lemma_exact_values(pieces: Seq<Seq<char>>)
    ensures
        forall|i: int, j: int|
            0 <= i < j < exact_values(pieces).len() ==> exact_values(pieces)[i]
                != exact_values(pieces)[j],
        forall|i: int|
            0 <= i < exact_values(pieces).len() ==> #[trigger] exact_values(pieces)[i].len() > 0,
        forall|k: int|
            0 <= k < pieces.len() && trim_spec(#[trigger] pieces[k]).len() > 0
                ==> exact_values(pieces).contains(trim_spec(pieces[k])),
    decreases pieces.len(),
{
    if pieces.len() > 0 {
        let p = pieces.drop_last();
        lemma_exact_values(p);
        let before = exact_values(p);
        let t = trim_spec(pieces.last());
        assert forall|k: int|
            0 <= k < pieces.len() && trim_spec(#[trigger] pieces[k]).len() > 0 implies exact_values(
            pieces,
        ).contains(trim_spec(pieces[k])) by {
            if k < pieces.len() - 1 {
                assert(p[k] == pieces[k]);
                assert(before.contains(trim_spec(p[k])));
                let w = choose|w: int| 0 <= w < before.len() && before[w] == trim_spec(p[k]);
                assert(exact_values(pieces)[w] == before[w]);
            } else {
                if !before.contains(t) {
                    assert(exact_values(pieces)[before.len() as int] == t);
                }
            }
        }
    }
}

// ---------------------------------------------------------------------------
// Checking the whole form before it is submitted
// ---------------------------------------------------------------------------

/// Longest booth description, in characters.
pub const DESCRIPTION_MAX_CHARS: usize = 200;

/// A decimal number as the form reads it: `mantissa / 10^scale`.
#[derive(Clone, Copy, Debug, PartialEq, Eq, Structural)]
pub struct DecimalValue {
    pub mantissa: i128,
    pub scale: u32,
}

/// Why a decimal input could not be read.
#[derive(Clone, Copy, Debug, PartialEq, Eq, Structural)]
pub enum DecimalInputParseError {
    /// More than two decimal places.
    TooManyDecimalPlaces,
    /// Not a number.
    InvalidFormat,
}

/// What is wrong with one field of the form.
#[derive(Clone, Copy, Debug, PartialEq, Eq, Structural)]
pub enum FieldError {
    /// The field is empty.
    Required,
    /// The description is longer than 200 characters.
    TooLong,
    /// The number is below zero.
    CannotBeNegative,
    /// The percentage is above 100.
    CannotExceed100,
    /// The number must be above zero.
    PositiveNumberRequired,
    /// The number has more than two decimal places.
    MaxTwoDecimals,
    /// The text is not a number.
    InvalidNumberFormat,
}

pub open spec fn pow10(n: nat) -> int
    decreases n,
{
    if n == 0 {
        1
    } else {
        10 * pow10((n - 1) as nat)
    }
}

/// The sign of a decimal compared with `bound` (a whole number): -1, 0 or 1.
pub open spec fn compare_to(d: DecimalValue, bound: int) -> int {
    let scaled = bound * pow10(d.scale as nat);
    if d.mantissa < scaled {
        -1
    } else if d.mantissa == scaled {
        0
    } else {
        1
    }
}

pub proof fn lemma_pow10_positive(n: nat)
    ensures
        pow10(n) >= 1,
    decreases n,
{
    if n > 0 {
        lemma_pow10_positive((n - 1) as nat);
    }
}

/// Whether `d` is above 100.
fn exceeds_100(d: DecimalValue) -> (r: bool)
    ensures
        r == (compare_to(d, 100) > 0),
{
    // 100 * 10^scale exceeds every i128 mantissa once scale reaches 37.
    let mut limit: i128 = 100;
    let mut k: u32 = 0;
    proof {
        lemma_pow10_positive(0);
    }
    while k < d.scale
        invariant
            k <= d.scale,
            limit == 100 * pow10(k as nat),
            100 <= limit <= i128::MAX,
        decreases d.scale - k,
    {
        if limit > i128::MAX / 10 {
            proof {
                assert(100 * pow10(d.scale as nat) >= limit * 10) by {
                    lemma_pow10_monotone(k as nat, d.scale as nat);
                }
            }
            return false;
        }
        limit = limit * 10;
        k = k + 1;
    }
    d.mantissa > limit
}

pub proof fn lemma_pow10_monotone(k: nat, n: nat)
    requires
        k < n,
    ensures
        pow10(n) >= 10 * pow10(k),
    decreases n,
{
    lemma_pow10_positive(k);
    if n > k + 1 {
        lemma_pow10_monotone(k, (n - 1) as nat);
    }
}

pub open spec fn is_blank(s: Seq<char>) -> bool {
    trim_spec(s).len() == 0
}

/// What the description field is checked for: not blank, at most 200 characters.
pub fn description_error(description: &str) -> (r: Option<FieldError>)
    ensures
        r == (if is_blank(description@) {
            Some(FieldError::Required)
        } else if description@.len() > DESCRIPTION_MAX_CHARS {
            Some(FieldError::TooLong)
        } else {
            None
        }),
{
    let v = chars_of(description);
    let t = trim_chars(&v);
    if t.len() == 0 {
        Some(FieldError::Required)
    } else if v.len() > DESCRIPTION_MAX_CHARS {
        Some(FieldError::TooLong)
    } else {
        None
    }
}

/// The date field must not be blank.
pub fn date_error(date: &str) -> (r: Option<FieldError>)
    ensures
        r == (if is_blank(date@) {
            Some(FieldError::Required)
        } else {
            None
        }),
{
    let t = trim_chars(&chars_of(date));
    if t.len() == 0 {
        Some(FieldError::Required)
    } else {
        None
    }
}

pub open spec fn parse_error_spec(e: DecimalInputParseError) -> FieldError {
    match e {
        DecimalInputParseError::TooManyDecimalPlaces => FieldError::MaxTwoDecimals,
        DecimalInputParseError::InvalidFormat => FieldError::InvalidNumberFormat,
    }
}

fn parse_error_message(e: DecimalInputParseError) -> (r: FieldError)
    ensures
        r == parse_error_spec(e),
{
    match e {
        DecimalInputParseError::TooManyDecimalPlaces => FieldError::MaxTwoDecimals,
        DecimalInputParseError::InvalidFormat => FieldError::InvalidNumberFormat,
    }
}

/// A fee field (participation fee, revenue share, rounding step): required,
/// a number, not negative, and, for a percentage, at most 100. `parsed` is
/// what reading the text as a decimal gave.
pub open spec fn fee_error_spec(
    input: Seq<char>,
    parsed: Result<DecimalValue, DecimalInputParseError>,
    is_percentage: bool,
) -> Option<FieldError> {
    if is_blank(input) {
        Some(FieldError::Required)
    } else {
        match parsed {
            Err(e) => Some(parse_error_spec(e)),
            Ok(v) => if v.mantissa < 0 {
                Some(FieldError::CannotBeNegative)
            } else if is_percentage && compare_to(v, 100) > 0 {
                Some(FieldError::CannotExceed100)
            } else {
                None
            },
        }
    }
}

pub fn fee_error(
    input: &str,
    parsed: Result<DecimalValue, DecimalInputParseError>,
    is_percentage: bool,
) -> (r: Option<FieldError>)
    ensures
        r == fee_error_spec(input@, parsed, is_percentage),
{
    let t = trim_chars(&chars_of(input));
    if t.len() == 0 {
        return Some(FieldError::Required);
    }
    match parsed {
        Err(e) => Some(parse_error_message(e)),
        Ok(v) => if v.mantissa < 0 {
            Some(FieldError::CannotBeNegative)
        } else if is_percentage && exceeds_100(v) {
            Some(FieldError::CannotExceed100)
        } else {
            None
        },
    }
}

/// A filled-in fee that reads as a number is refused as negative exactly when
/// its value is below zero; zero and every positive amount pass, and a
/// percentage passes exactly when it lies between 0 and 100.
pub proof fn lemma_fee_sign_rule(
    input: Seq<char>,
    v: DecimalValue,
    is_percentage: bool,
)
    requires
        !is_blank(input),
    ensures
        (fee_error_spec(input, Ok(v), is_percentage) == Some(FieldError::CannotBeNegative)) <==> (
        v.mantissa < 0),
        !is_percentage ==> ((fee_error_spec(input, Ok(v), false) is None) <==> v.mantissa >= 0),
        is_percentage ==> ((fee_error_spec(input, Ok(v), true) is None) <==> (0 <= v.mantissa
            <= 100 * pow10(v.scale as nat))),
        v.mantissa == 0 ==> fee_error_spec(input, Ok(v), is_percentage) is None,
{
    lemma_pow10_positive(v.scale as nat);
}

/// The optional amount stepping: blank is fine, otherwise a number above zero.
pub open spec fn amount_stepping_error_spec(
    input: Seq<char>,
    parsed: Result<DecimalValue, DecimalInputParseError>,
) -> Option<FieldError> {
    if is_blank(input) {
        None
    } else {
        match parsed {
            Err(e) => Some(parse_error_spec(e)),
            Ok(v) => if v.mantissa <= 0 {
                Some(FieldError::PositiveNumberRequired)
            } else {
                None
            },
        }
    }
}

pub fn amount_stepping_error(
    input: &str,
    parsed: Result<DecimalValue, DecimalInputParseError>,
) -> (r: Option<FieldError>)
    ensures
        r == amount_stepping_error_spec(input@, parsed),
{
    let t = trim_chars(&chars_of(input));
    if t.len() == 0 {
        return None;
    }
    match parsed {
        Err(e) => Some(parse_error_message(e)),
        Ok(v) => if v.mantissa <= 0 {
            Some(FieldError::PositiveNumberRequired)
        } else {
            None
        },
    }
}

/// The messages under the two digits-only fields: an invalid bound under its
/// own field, a minimum above the maximum under both.
pub fn digits_only_form_error_messages(
    validation: Option<DigitsOnlyFieldValidation>,
    translations: &Translations,
) -> (r: (Option<String>, Option<String>))
    ensures
        ({
            let positive = lookup_text(
                translations.entries(),
                "booth.form_errors.positive_number_required"@,
            );
            let min_max = lookup_text(
                translations.entries(),
                "validation.digits_only_min_max_invalid"@,
            );
            match validation {
                Some(DigitsOnlyFieldValidation::MinInvalid) => r.0 matches Some(m) && m@ == positive
                    && r.1 is None,
                Some(DigitsOnlyFieldValidation::MaxInvalid) => r.0 is None && (r.1 matches Some(m)
                    && m@ == positive),
                Some(DigitsOnlyFieldValidation::MinGreaterThanMax) => (r.0 matches Some(m) && m@
                    == min_max) && (r.1 matches Some(m) && m@ == min_max),
                None => r.0 is None && r.1 is None,
            }
        }),
{
    match validation {
        Some(DigitsOnlyFieldValidation::MinInvalid) => (
            Some(translations.get("booth.form_errors.positive_number_required")),
            None,
        ),
        Some(DigitsOnlyFieldValidation::MaxInvalid) => (
            None,
            Some(translations.get("booth.form_errors.positive_number_required")),
        ),
        Some(DigitsOnlyFieldValidation::MinGreaterThanMax) => {
            let message = translations.get("validation.digits_only_min_max_invalid");
            (Some(message.clone()), Some(message))
        },
        None => (None, None),
    }
}

/// A regex pattern is required when the vendor numbers are checked by pattern.
pub fn regex_pattern_missing(pattern: &str) -> (r: bool)
    ensures
        r == is_blank(pattern@),
{
    trim_chars(&chars_of(pattern)).len() == 0
}

/// The tab to show after a failed submit: the current one when it has
/// errors, else the first tab (basic, validation, omissions) that has any.
pub fn tab_after_failed_submit(
    current: usize,
    basic_errors: bool,
    validation_errors: bool,
    omission_errors: bool,
) -> (r: usize)
    ensures
        r == (if (current == 0 && basic_errors) || (current == 1 && validation_errors) || (current
            == 2 && omission_errors) {
            current
        } else if basic_errors {
            0
        } else if validation_errors {
            1
        } else if omission_errors {
            2
        } else {
            current
        }),
{
    let current_has_errors = match current {
        0 => basic_errors,
        1 => validation_errors,
        2 => omission_errors,
        _ => false,
    };
    if current_has_errors {
        current
    } else if basic_errors {
        0
    } else if validation_errors {
        1
    } else if omission_errors {
        2
    } else {
        current
    }
}

/// The text fields of the booth form.
#[derive(Debug)]
pub struct BoothFormFields {
    pub description: String,
    pub date: String,
    pub participation_fee: String,
    pub sales_fee_percent: String,
    pub rounding_step: String,
    pub amount_stepping: String,
    /// `unrestricted`, `digits_only` or `regex`.
    pub vendor_validation_type: String,
    pub vendor_validation_regex: String,
    pub vendor_validation_min: String,
    pub vendor_validation_max: String,
}

/// What reading the form's fields gave, as the form reads them: the four
/// amounts as decimals, the regular expression check (the message, when it
/// refused the pattern) and the omission rules' check (the message, when they
/// are inconsistent).
#[derive(Debug)]
pub struct BoothFormReadings {
    pub participation_fee: Result<DecimalValue, DecimalInputParseError>,
    pub sales_fee_percent: Result<DecimalValue, DecimalInputParseError>,
    pub rounding_step: Result<DecimalValue, DecimalInputParseError>,
    pub amount_stepping: Result<DecimalValue, DecimalInputParseError>,
    pub regex_error: Option<String>,
    pub omission_error: Option<String>,
}

/// What is wrong with the regular expression field.
#[derive(Debug, PartialEq, Eq)]
pub enum RegexFieldError {
    /// No pattern was given.
    Required,
    /// The pattern was refused, with the message to show.
    Invalid(String),
}

/// The outcome of checking the booth form before submitting it.
#[derive(Debug)]
pub struct BoothFormCheck {
    pub description: Option<FieldError>,
    pub date: Option<FieldError>,
    pub participation_fee: Option<FieldError>,
    pub sales_fee_percent: Option<FieldError>,
    pub rounding_step: Option<FieldError>,
    pub amount_stepping: Option<FieldError>,
    pub digits_only: Option<DigitsOnlyFieldValidation>,
    pub regex: Option<RegexFieldError>,
    pub omission: Option<String>,
}

impl BoothFormCheck {
    /// Errors on the basic tab: description, date and fees.
    pub open spec fn basic_errors_spec(self) -> bool {
        self.description is Some || self.date is Some || self.participation_fee is Some
            || self.sales_fee_percent is Some || self.rounding_step is Some
    }

    /// Errors on the validation tab: amount stepping and the vendor-number rule.
    pub open spec fn validation_errors_spec(self) -> bool {
        self.amount_stepping is Some || self.digits_only is Some || self.regex is Some
    }

    /// Whether the basic tab has errors.
    pub fn basic_errors(&self) -> (r: bool)
        ensures
            r == self.basic_errors_spec(),
    {
        self.description.is_some() || self.date.is_some() || self.participation_fee.is_some()
            || self.sales_fee_percent.is_some() || self.rounding_step.is_some()
    }

    /// Whether the validation tab has errors.
    pub fn validation_errors(&self) -> (r: bool)
        ensures
            r == self.validation_errors_spec(),
    {
        self.amount_stepping.is_some() || self.digits_only.is_some() || self.regex.is_some()
    }

    /// Whether the omission tab has errors.
    pub fn omission_errors(&self) -> (r: bool)
        ensures
            r == self.omission is Some,
    {
        self.omission.is_some()
    }

    /// Whether the form is submitted: no tab has errors.
    pub fn can_submit(&self) -> (r: bool)
        ensures
            r == (!self.basic_errors_spec() && !self.validation_errors_spec()
                && self.omission is None),
    {
        !self.basic_errors() && !self.validation_errors() && !self.omission_errors()
    }
}

/// Checks the whole booth form before submitting it: each field as its own
/// check says; the digits-only bounds only for a digits-only rule; the
/// pattern, required and accepted, only for a regular-expression rule.
pub fn check_booth_form(fields: &BoothFormFields, readings: &BoothFormReadings) -> (r:
    BoothFormCheck)
    ensures
        r.description == (if is_blank(fields.description@) {
            Some(FieldError::Required)
        } else if fields.description@.len() > DESCRIPTION_MAX_CHARS {
            Some(FieldError::TooLong)
        } else {
            None::<FieldError>
        }),
        r.date == (if is_blank(fields.date@) {
            Some(FieldError::Required)
        } else {
            None::<FieldError>
        }),
        r.participation_fee == fee_error_spec(fields.participation_fee@, readings.participation_fee, false),
        r.sales_fee_percent == fee_error_spec(fields.sales_fee_percent@, readings.sales_fee_percent, true),
        r.rounding_step == fee_error_spec(fields.rounding_step@, readings.rounding_step, false),
        r.amount_stepping == amount_stepping_error_spec(fields.amount_stepping@, readings.amount_stepping),
        r.digits_only == (if fields.vendor_validation_type@ == "digits_only"@ {
            form_fields_spec(fields.vendor_validation_min@, fields.vendor_validation_max@)
        } else {
            None
        }),
        fields.vendor_validation_type@ != "regex"@ ==> r.regex is None,
        fields.vendor_validation_type@ == "regex"@ ==> (if is_blank(fields.vendor_validation_regex@) {
            r.regex == Some(RegexFieldError::Required)
        } else {
            match readings.regex_error {
                Some(m) => r.regex == Some(RegexFieldError::Invalid(m)),
                None => r.regex is None,
            }
        }),
        r.omission == readings.omission_error,
{
    proof {
        reveal_strlit("digits_only");
        reveal_strlit("regex");
        assert("digits_only"@[0] != "regex"@[0]);
    }
    let kind = chars_of(fields.vendor_validation_type.as_str());
    let is_digits = crate::text::chars_eq_str(&kind, "digits_only");
    let is_regex = crate::text::chars_eq_str(&kind, "regex");
    let digits_only = if is_digits {
        validate_digits_only_form_fields(
            fields.vendor_validation_min.as_str(),
            fields.vendor_validation_max.as_str(),
        )
    } else {
        None
    };
    let regex = if is_regex {
        if regex_pattern_missing(fields.vendor_validation_regex.as_str()) {
            Some(RegexFieldError::Required)
        } else {
            match &readings.regex_error {
                Some(m) => Some(RegexFieldError::Invalid(m.clone())),
                None => None,
            }
        }
    } else {
        None
    };
    BoothFormCheck {
        description: description_error(fields.description.as_str()),
        date: date_error(fields.date.as_str()),
        participation_fee: fee_error(
            fields.participation_fee.as_str(),
            readings.participation_fee,
            false,
        ),
        sales_fee_percent: fee_error(fields.sales_fee_percent.as_str(), readings.sales_fee_percent, true),
        rounding_step: fee_error(fields.rounding_step.as_str(), readings.rounding_step, false),
        amount_stepping: amount_stepping_error(
            fields.amount_stepping.as_str(),
            readings.amount_stepping,
        ),
        digits_only,
        regex,
        omission: match &readings.omission_error {
            Some(m) => Some(m.clone()),
            None => None,
        },
    }
}
} // verus!
