use ez_vend::booth_form::{
    parse_digits_only_config, parse_digits_only_field, parse_exact_omission_values,
    parse_u32_input, sanitize_digits_only_field, validate_digits_only_constraints,
    validate_digits_only_form_fields, DigitsOnlyFieldValidation, DomainError, ValidationError,
};

#[test]
fn test_parse_exact_omission_values_splits_and_trims() {
    let values = parse_exact_omission_values(" 56, 62 ,68 , TEST ");

    assert_eq!(values, vec!["56", "62", "68", "TEST"]);
}

#[test]
fn test_parse_exact_omission_values_deduplicates_preserving_order() {
    let values = parse_exact_omission_values("56, 56, 62, TEST, 62, TEST");

    assert_eq!(values, vec!["56", "62", "TEST"]);
}

#[test]
fn test_parse_exact_omission_values_ignores_empty_entries() {
    let values = parse_exact_omission_values(" , 56, , , TEST ,, ");

    assert_eq!(values, vec!["56", "TEST"]);
}

#[test]
fn test_parse_digits_only_field_requires_value_for_min() {
    assert!(matches!(
        parse_digits_only_field("", false),
        Err(DomainError::Validation(
            ValidationError::DigitsOnlyConstraintInvalidNumber
        ))
    ));
}

#[test]
fn test_parse_digits_only_field_allows_empty_max() {
    assert_eq!(parse_digits_only_field("", true).unwrap(), None);
}

#[test]
fn test_sanitize_digits_only_field_removes_non_digits() {
    assert_eq!(sanitize_digits_only_field("12e-3abc"), "123");
}

#[test]
fn test_validate_digits_only_form_fields_rejects_empty_min() {
    assert_eq!(
        validate_digits_only_form_fields("", ""),
        Some(DigitsOnlyFieldValidation::MinInvalid)
    );
}

#[test]
fn test_validate_digits_only_form_fields_rejects_invalid_max() {
    assert_eq!(
        validate_digits_only_form_fields("1", "abc"),
        Some(DigitsOnlyFieldValidation::MaxInvalid)
    );
}

#[test]
fn test_validate_digits_only_form_fields_rejects_min_greater_than_max() {
    assert_eq!(
        validate_digits_only_form_fields("10", "5"),
        Some(DigitsOnlyFieldValidation::MinGreaterThanMax)
    );
}

#[test]
fn test_validate_digits_only_form_fields_accepts_equal_bounds() {
    assert_eq!(validate_digits_only_form_fields("42", "42"), None);
}

#[test]
fn test_validate_digits_only_form_fields_accepts_zero_min() {
    assert_eq!(validate_digits_only_form_fields("0", "10"), None);
}

#[test]
fn digits_only_fields_trim_and_reject_signs() {
    assert_eq!(parse_digits_only_field("  7 ", false), Ok(Some(7)));
    assert_eq!(parse_digits_only_field("+7", false), Ok(Some(7)));
    assert_eq!(
        parse_digits_only_field("-7", true),
        Err(DomainError::Validation(ValidationError::DigitsOnlyConstraintInvalidNumber))
    );
    assert_eq!(parse_digits_only_field("   ", true), Ok(None));
}

#[test]
fn digits_only_config_reports_the_bounds() {
    assert_eq!(parse_digits_only_config("42", "42"), Ok((42, Some(42))));
    assert_eq!(parse_digits_only_config("1", ""), Ok((1, None)));
    assert_eq!(
        parse_digits_only_config("9", "3"),
        Err(DomainError::Validation(ValidationError::DigitsOnlyMinMaxInvalid { min: 9, max: 3 }))
    );
    assert_eq!(
        parse_digits_only_config("", "3"),
        Err(DomainError::Validation(ValidationError::DigitsOnlyConstraintInvalidNumber))
    );
    assert_eq!(validate_digits_only_constraints(3, None), Ok(()));
}

#[test]
fn u32_inputs_are_trimmed() {
    assert_eq!(parse_u32_input(" 12 "), Some(12));
    assert_eq!(parse_u32_input("1.5"), None);
    assert_eq!(parse_u32_input("99999999999"), None);
}

use ez_vend::booth_form::{
    amount_stepping_error, check_booth_form, date_error, description_error,
    digits_only_form_error_messages, fee_error, regex_pattern_missing, tab_after_failed_submit,
    BoothFormFields, BoothFormReadings, DecimalInputParseError, DecimalValue, FieldError,
    RegexFieldError,
};
use ez_vend::translations::{JsonValue, Translations};

fn form_texts() -> Translations {
    Translations::from_entries(vec![
        (
            "booth".to_string(),
            JsonValue::Object(vec![(
                "form_errors".to_string(),
                JsonValue::Object(vec![(
                    "positive_number_required".to_string(),
                    JsonValue::String("Positive Zahl nötig".to_string()),
                )]),
            )]),
        ),
        (
            "validation".to_string(),
            JsonValue::Object(vec![(
                "digits_only_min_max_invalid".to_string(),
                JsonValue::String("Minimum über Maximum".to_string()),
            )]),
        ),
    ])
}

fn dec(mantissa: i128, scale: u32) -> DecimalValue {
    DecimalValue { mantissa, scale }
}

#[test]
fn descriptions_are_required_and_bounded() {
    assert_eq!(description_error("   "), Some(FieldError::Required));
    assert_eq!(description_error("Fair"), None);
    assert_eq!(description_error(&"ä".repeat(200)), None);
    assert_eq!(description_error(&"ä".repeat(201)), Some(FieldError::TooLong));
    assert_eq!(date_error(""), Some(FieldError::Required));
    assert_eq!(date_error("2026-03-25"), None);
}

#[test]
fn fee_fields_are_checked() {
    assert_eq!(fee_error(" ", Ok(dec(0, 0)), false), Some(FieldError::Required));
    assert_eq!(fee_error("-1", Ok(dec(-100, 2)), false), Some(FieldError::CannotBeNegative));
    assert_eq!(fee_error("100,00", Ok(dec(10000, 2)), true), None);
    assert_eq!(fee_error("100,01", Ok(dec(10001, 2)), true), Some(FieldError::CannotExceed100));
    assert_eq!(fee_error("150", Ok(dec(150, 0)), false), None);
    assert_eq!(
        fee_error("1.234", Err(DecimalInputParseError::TooManyDecimalPlaces), false),
        Some(FieldError::MaxTwoDecimals)
    );
    assert_eq!(
        fee_error("x", Err(DecimalInputParseError::InvalidFormat), true),
        Some(FieldError::InvalidNumberFormat)
    );
    assert_eq!(fee_error("1", Ok(dec(1, 38)), true), None);
}

#[test]
fn amount_stepping_is_optional_but_positive() {
    assert_eq!(amount_stepping_error("", Err(DecimalInputParseError::InvalidFormat)), None);
    assert_eq!(amount_stepping_error("0.00", Ok(dec(0, 2))), Some(FieldError::PositiveNumberRequired));
    assert_eq!(amount_stepping_error("0.50", Ok(dec(50, 2))), None);
}

#[test]
fn form_errors_pick_fields_and_tabs() {
    let t = form_texts();
    let min_max = Some("Minimum über Maximum".to_string());
    assert_eq!(
        digits_only_form_error_messages(Some(DigitsOnlyFieldValidation::MinGreaterThanMax), &t),
        (min_max.clone(), min_max)
    );
    assert_eq!(
        digits_only_form_error_messages(Some(DigitsOnlyFieldValidation::MaxInvalid), &t),
        (None, Some("Positive Zahl nötig".to_string()))
    );
    assert_eq!(
        digits_only_form_error_messages(Some(DigitsOnlyFieldValidation::MinInvalid), &t),
        (Some("Positive Zahl nötig".to_string()), None)
    );
    assert_eq!(digits_only_form_error_messages(None, &t), (None, None));
    assert!(regex_pattern_missing("  "));
    assert!(!regex_pattern_missing("^[0-9]+$"));
    assert_eq!(tab_after_failed_submit(1, true, true, false), 1);
    assert_eq!(tab_after_failed_submit(2, false, true, false), 1);
    assert_eq!(tab_after_failed_submit(0, false, false, true), 2);
    assert_eq!(tab_after_failed_submit(0, false, false, false), 0);
}

fn form_fields(kind: &str, regex: &str, min: &str, max: &str) -> BoothFormFields {
    BoothFormFields {
        description: "Frühjahrsmarkt".to_string(),
        date: "2026-03-29".to_string(),
        participation_fee: "10,00".to_string(),
        sales_fee_percent: "15".to_string(),
        rounding_step: "0,50".to_string(),
        amount_stepping: "".to_string(),
        vendor_validation_type: kind.to_string(),
        vendor_validation_regex: regex.to_string(),
        vendor_validation_min: min.to_string(),
        vendor_validation_max: max.to_string(),
    }
}

fn good_readings() -> BoothFormReadings {
    BoothFormReadings {
        participation_fee: Ok(dec(1000, 2)),
        sales_fee_percent: Ok(dec(15, 0)),
        rounding_step: Ok(dec(50, 2)),
        amount_stepping: Err(DecimalInputParseError::InvalidFormat),
        regex_error: None,
        omission_error: None,
    }
}

#[test]
fn booth_form_submits_only_without_errors() {
    let ok = check_booth_form(&form_fields("digits_only", "", "1", ""), &good_readings());
    assert!(ok.can_submit());
    let bounds = check_booth_form(&form_fields("digits_only", "", "9", "3"), &good_readings());
    assert_eq!(bounds.digits_only, Some(DigitsOnlyFieldValidation::MinGreaterThanMax));
    assert!(bounds.validation_errors() && !bounds.basic_errors() && !bounds.can_submit());
    let ignored = check_booth_form(&form_fields("unrestricted", "", "x", "y"), &good_readings());
    assert!(ignored.can_submit());
    let missing = check_booth_form(&form_fields("regex", "  ", "1", ""), &good_readings());
    assert_eq!(missing.regex, Some(RegexFieldError::Required));
    let mut refused = good_readings();
    refused.regex_error = Some("unclosed group".to_string());
    let bad = check_booth_form(&form_fields("regex", "(", "1", ""), &refused);
    assert_eq!(bad.regex, Some(RegexFieldError::Invalid("unclosed group".to_string())));
    let mut fees = good_readings();
    fees.sales_fee_percent = Ok(dec(10050, 2));
    fees.omission_error = Some("overlapping ranges".to_string());
    let mut fields = form_fields("digits_only", "", "1", "");
    fields.description = " ".to_string();
    let check = check_booth_form(&fields, &fees);
    assert_eq!(check.description, Some(FieldError::Required));
    assert_eq!(check.sales_fee_percent, Some(FieldError::CannotExceed100));
    assert!(check.basic_errors() && check.omission_errors());
    assert_eq!(tab_after_failed_submit(2, check.basic_errors(), check.validation_errors(), check.omission_errors()), 2);
}
