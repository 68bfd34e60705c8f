//! The rule a booth applies to vendor numbers, and the four form fields that
//! edit it.

use vstd::prelude::*;

use crate::booth_form::{
    digits_only_field_spec, parse_digits_only_config, DomainError, ValidationError,
};
use crate::text::{
    all_digits, decimal_chars, decimal_text, digit_char, digit_value, digits_value, is_digit,
    is_ws, owned, parse_unsigned_spec, string_of, trim_end_spec, trim_spec, trim_start_spec,
    unsigned_digits,
};

verus! {

/// Which vendor numbers a booth accepts.
#[derive(Debug, PartialEq, Eq)]
pub enum VendorIdValidation {
    /// Any vendor number.
    Unrestricted,
    /// Numbers of digits only, from `min` up to `max` when there is one.
    DigitsOnly { min: usize, max: Option<usize> },
    /// Numbers matching a regular expression.
    Regex(String),
}

/// The form fields that edit the rule.
#[derive(Debug, PartialEq, Eq)]
pub struct ValidationFields {
    /// `unrestricted`, `digits_only` or `regex`.
    pub validation_type: String,
    pub regex: String,
    pub min: String,
    pub max: String,
}

/// Why the fields do not give a rule.
#[derive(Debug, PartialEq, Eq)]
pub enum ValidationFieldsError {
    /// A digits-only bound is wrong.
    Digits(DomainError),
    /// The regular expression was refused, with the message to show.
    Regex(String),
}

/// The text of a field that holds an optional number: empty for none.
pub open spec fn optional_number_text(n: Option<usize>) -> Seq<char> {
    match n {
        Some(v) => decimal_text(v as nat),
        None => Seq::empty(),
    }
}

/// Whether `f` shows the rule `v`: its kind, and its pattern or bounds; the
/// unused fields hold `1` for the minimum and nothing else.
pub open spec fn shows_rule(f: ValidationFields, v: VendorIdValidation) -> bool {
    match v {
        VendorIdValidation::Unrestricted => f.validation_type@ == "unrestricted"@ && f.regex@.len()
            == 0 && f.min@ == "1"@ && f.max@.len() == 0,
        VendorIdValidation::DigitsOnly { min, max } => f.validation_type@ == "digits_only"@
            && f.regex@.len() == 0 && f.min@ == decimal_text(min as nat) && f.max@
            == optional_number_text(max),
        VendorIdValidation::Regex(p) => f.validation_type@ == "regex"@ && f.regex@ == p@ && f.min@
            == "1"@ && f.max@.len() == 0,
    }
}

fn number_string(n: usize) -> (r: String)
    ensures
        r@ == decimal_text(n as nat),
{
    string_of(&decimal_chars(n as u64))
}

/// The form fields for a booth's rule.
pub fn validation_fields(v: &VendorIdValidation) -> (r: ValidationFields)
    ensures
        shows_rule(r, *v),
{
    match v {
        VendorIdValidation::Unrestricted => ValidationFields {
            validation_type: owned("unrestricted"),
            regex: String::new(),
            min: owned("1"),
            max: String::new(),
        },
        VendorIdValidation::DigitsOnly { min, max } => ValidationFields {
            validation_type: owned("digits_only"),
            regex: String::new(),
            min: number_string(*min),
            max: match max {
                Some(m) => number_string(*m),
                None => String::new(),
            },
        },
        VendorIdValidation::Regex(p) => ValidationFields {
            validation_type: owned("regex"),
            regex: p.clone(),
            min: owned("1"),
            max: String::new(),
        },
    }
}

/// Whether `r` is the rule the fields give: `regex_error` is the message
/// for the pattern when the regular expression check refused it; an unknown
/// kind gives digits only from 1.
pub open spec fn rule_from_fields(
    r: Result<VendorIdValidation, ValidationFieldsError>,
    f: ValidationFields,
    regex_error: Option<String>,
) -> bool {
    if f.validation_type@ == "unrestricted"@ {
        r == Ok::<VendorIdValidation, ValidationFieldsError>(VendorIdValidation::Unrestricted)
    } else if f.validation_type@ == "digits_only"@ {
        match digits_only_field_spec(f.min@, false) {
            Err(e) => r == Err::<VendorIdValidation, ValidationFieldsError>(
                ValidationFieldsError::Digits(e),
            ),
            Ok(None) => r == Err::<VendorIdValidation, ValidationFieldsError>(
                ValidationFieldsError::Digits(
                    DomainError::Validation(ValidationError::DigitsOnlyConstraintInvalidNumber),
                ),
            ),
            Ok(Some(lo)) => match digits_only_field_spec(f.max@, true) {
                Err(e) => r == Err::<VendorIdValidation, ValidationFieldsError>(
                    ValidationFieldsError::Digits(e),
                ),
                Ok(hi) => match hi {
                    Some(h) if lo > h => r == Err::<VendorIdValidation, ValidationFieldsError>(
                        ValidationFieldsError::Digits(
                            DomainError::Validation(
                                ValidationError::DigitsOnlyMinMaxInvalid { min: lo, max: h },
                            ),
                        ),
                    ),
                    _ => r == Ok::<VendorIdValidation, ValidationFieldsError>(
                        VendorIdValidation::DigitsOnly { min: lo, max: hi },
                    ),
                },
            },
        }
    } else if f.validation_type@ == "regex"@ {
        match regex_error {
            Some(m) => r == Err::<VendorIdValidation, ValidationFieldsError>(
                ValidationFieldsError::Regex(m),
            ),
            None => r matches Ok(VendorIdValidation::Regex(p)) && p@ == f.regex@,
        }
    } else {
        r == Ok::<VendorIdValidation, ValidationFieldsError>(
            VendorIdValidation::DigitsOnly { min: 1, max: None },
        )
    }
}

/// The rule that the form fields give.
pub fn vendor_id_validation(fields: &ValidationFields, regex_error: Option<String>) -> (r: Result<
    VendorIdValidation,
    ValidationFieldsError,
>)
    ensures
        rule_from_fields(r, *fields, regex_error),
{
    proof {
        reveal_strlit("unrestricted");
        reveal_strlit("digits_only");
        reveal_strlit("regex");
        assert("unrestricted"@[0] != "digits_only"@[0]);
        assert("unrestricted"@[0] != "regex"@[0]);
        assert("digits_only"@[0] != "regex"@[0]);
    }
    let kind = crate::text::chars_of(fields.validation_type.as_str());
    if crate::text::chars_eq_str(&kind, "unrestricted") {
        Ok(VendorIdValidation::Unrestricted)
    } else if crate::text::chars_eq_str(&kind, "digits_only") {
        match parse_digits_only_config(fields.min.as_str(), fields.max.as_str()) {
            Ok((min, max)) => Ok(VendorIdValidation::DigitsOnly { min, max }),
            Err(e) => Err(ValidationFieldsError::Digits(e)),
        }
    } else if crate::text::chars_eq_str(&kind, "regex") {
        match regex_error {
            Some(m) => Err(ValidationFieldsError::Regex(m)),
            None => Ok(VendorIdValidation::Regex(fields.regex.clone())),
        }
    } else {
        Ok(VendorIdValidation::DigitsOnly { min: 1, max: None })
    }
}

proof fn lemma_decimal_text_digits(n: nat)
    ensures
        decimal_text(n).len() > 0,
        all_digits(decimal_text(n)),
        digits_value(decimal_text(n)) == n,
    decreases n,
{
    let t = decimal_text(n);
    if n < 10 {
        assert(digit_value(digit_char(n)) == n);
        assert(t.drop_last() =~= Seq::<char>::empty());
        assert(digits_value(t.drop_last()) == 0);
        assert(t.last() == digit_char(n));
        assert(digits_value(t) == digits_value(t.drop_last()) * 10 + digit_value(t.last()));
    } else {
        lemma_decimal_text_digits(n / 10);
        assert(digit_value(digit_char(n % 10)) == n % 10);
        assert(t.drop_last() == decimal_text(n / 10));
        assert(t.last() == digit_char(n % 10));
        assert(digits_value(t) == digits_value(t.drop_last()) * 10 + digit_value(t.last()));
        assert((n / 10) * 10 + n % 10 == n);
        assert forall|i: int| 0 <= i < t.len() implies is_digit(#[trigger] t[i]) by {
            if i < t.len() - 1 {
                assert(t[i] == decimal_text(n / 10)[i]);
            }
        }
    }
}

/// The text of a number reads back as the number.
proof fn lemma_number_text_reads_back(n: nat)
    requires
        n <= usize::MAX,
    ensures
        trim_spec(decimal_text(n)) == decimal_text(n),
        parse_unsigned_spec(decimal_text(n), usize::MAX as nat) == Some(n),
{
    let t = decimal_text(n);
    lemma_decimal_text_digits(n);
    assert(is_digit(t[0]));
    assert(!is_ws(t[0]));
    assert(!is_ws(t.last())) by {
        assert(is_digit(t[t.len() - 1]));
    }
    assert(trim_start_spec(t) == t);
    assert(trim_end_spec(t) == t);
    assert(unsigned_digits(t) == t);
}

/// A booth's vendor-number rule read back from the form fields that show it
/// is the same rule, for every rule a booth can hold: digits-only bounds in
/// order, and a pattern that the regular expression check accepts.
pub proof fn lemma_rule_round_trip(v: VendorIdValidation, f: ValidationFields)
    requires
        shows_rule(f, v),
        v matches VendorIdValidation::DigitsOnly { min, max } ==> (max matches Some(h) ==> min <= h),
    ensures
        v matches VendorIdValidation::Regex(_) ==> (forall|r: Result<VendorIdValidation, ValidationFieldsError>|
            #[trigger] rule_from_fields(r, f, None) ==> (r matches Ok(VendorIdValidation::Regex(p)) && p@ == (match v {
                VendorIdValidation::Regex(q) => q@,
                _ => Seq::empty(),
            }))),
        !(v is Regex) ==> (forall|r: Result<VendorIdValidation, ValidationFieldsError>|
            #[trigger] rule_from_fields(r, f, None) ==> r == Ok::<VendorIdValidation, ValidationFieldsError>(v)),
{
    reveal_strlit("unrestricted");
    reveal_strlit("digits_only");
    reveal_strlit("regex");
    assert("unrestricted"@[0] != "digits_only"@[0]);
    assert("unrestricted"@[0] != "regex"@[0]);
    assert("digits_only"@[0] != "regex"@[0]);
    match v {
        VendorIdValidation::DigitsOnly { min, max } => {
            lemma_number_text_reads_back(min as nat);
            assert(digits_only_field_spec(f.min@, false) == Ok::<Option<usize>, DomainError>(
                Some(min),
            ));
            match max {
                Some(h) => {
                    lemma_number_text_reads_back(h as nat);
                    assert(digits_only_field_spec(f.max@, true) == Ok::<Option<usize>, DomainError>(
                        Some(h),
                    ));
                },
                None => {
                    assert(trim_spec(f.max@).len() == 0);
                    assert(digits_only_field_spec(f.max@, true) == Ok::<Option<usize>, DomainError>(
                        None,
                    ));
                },
            }
        },
        _ => {},
    }
}

} // verus!
