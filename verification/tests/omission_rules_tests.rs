use ez_vend::omission_rules::{
    new_omission_rules, omission_rule_key, omission_rule_type_label, omission_rule_value,
    OmissionInputError, OmissionRule,
};
use ez_vend::booth_form::{DomainError, ValidationError};
use ez_vend::translations::{JsonValue, Translations};
use ez_vend::vendor_validation::{
    validation_fields, vendor_id_validation, ValidationFields, ValidationFieldsError,
    VendorIdValidation,
};

fn rule_texts() -> Translations {
    let text = |k: &str, v: &str| (k.to_string(), JsonValue::String(v.to_string()));
    Translations::from_entries(vec![(
        "booth".to_string(),
        JsonValue::Object(vec![
            text("vendor_omission_type_exact", "Genau"),
            text("vendor_omission_type_wildcard", "Platzhalter"),
            text("vendor_omission_type_regex", "Regex"),
            text("vendor_omission_type_range", "Bereich"),
        ]),
    )])
}

fn add(kind: &str, value: &str, pattern: &str, start: &str, end: &str, step: &str) -> Result<Vec<OmissionRule>, OmissionInputError> {
    new_omission_rules(kind, value, pattern, start, end, step, None)
}

#[test]
fn rules_are_shown() {
    let t = rule_texts();
    let exact = OmissionRule::Exact("A7".to_string());
    let range = OmissionRule::Range { start: 10, end: 20 };
    let stepped = OmissionRule::RangeWithStep { start: 1, end: 99, step: 2 };
    assert_eq!(omission_rule_type_label(&exact, &t), "Genau");
    assert_eq!(omission_rule_type_label(&stepped, &t), "Bereich");
    assert_eq!(omission_rule_type_label(&OmissionRule::Wildcard("A*".to_string()), &t), "Platzhalter");
    assert_eq!(omission_rule_value(&exact), "A7");
    assert_eq!(omission_rule_value(&range), "10-20");
    assert_eq!(omission_rule_value(&stepped), "1-99 (step 2)");
    assert_eq!(omission_rule_value(&OmissionRule::Regex("^9".to_string())), "^9");
    assert_eq!(omission_rule_key(3, &stepped, &t), "3:Bereich:1-99 (step 2)");
    assert_eq!(omission_rule_key(0, &exact, &t), "0:Genau:A7");
}

#[test]
fn exact_rules_come_from_the_list() {
    assert_eq!(
        add("exact", " 5, 7 ,5,, 9", "", "", "", ""),
        Ok(vec![
            OmissionRule::Exact("5".to_string()),
            OmissionRule::Exact("7".to_string()),
            OmissionRule::Exact("9".to_string()),
        ])
    );
    assert_eq!(add("exact", " , ", "", "", "", ""), Err(OmissionInputError::ValueRequired));
    assert_eq!(add("unknown", "4", "", "", "", ""), Ok(vec![OmissionRule::Exact("4".to_string())]));
}

#[test]
fn pattern_rules_are_checked() {
    assert_eq!(
        add("wildcard", "", "  A* ", "", "", ""),
        Ok(vec![OmissionRule::Wildcard("A*".to_string())])
    );
    assert_eq!(add("wildcard", "", "   ", "", "", ""), Err(OmissionInputError::PatternRequired));
    let long = "x".repeat(101);
    assert_eq!(add("wildcard", "", &long, "", "", ""), Err(OmissionInputError::PatternTooLong));
    let hundred = "x".repeat(100);
    assert!(add("wildcard", "", &hundred, "", "", "").is_ok());
    let wide = "ä".repeat(51);
    assert_eq!(add("wildcard", "", &wide, "", "", ""), Err(OmissionInputError::PatternTooLong));
    assert_eq!(
        add("regex", "", " ^1[0-9]$ ", "", "", ""),
        Ok(vec![OmissionRule::Regex("^1[0-9]$".to_string())])
    );
    assert_eq!(
        new_omission_rules("regex", "", "(", "", "", "", Some("unclosed group".to_string())),
        Err(OmissionInputError::InvalidPattern("unclosed group".to_string()))
    );
}

#[test]
fn range_rules_are_checked() {
    assert_eq!(add("range", "", "", "10", " 20 ", ""), Ok(vec![OmissionRule::Range { start: 10, end: 20 }]));
    assert_eq!(
        add("range", "", "", "10", "20", " 5 "),
        Ok(vec![OmissionRule::RangeWithStep { start: 10, end: 20, step: 5 }])
    );
    assert_eq!(add("range", "", "", "x", "20", ""), Err(OmissionInputError::NumberRequired));
    assert_eq!(add("range", "", "", "1", "", ""), Err(OmissionInputError::NumberRequired));
    assert_eq!(add("range", "", "", "30", "20", ""), Err(OmissionInputError::RangeInvalid));
    assert_eq!(add("range", "", "", "1", "20", "two"), Err(OmissionInputError::StepRequired));
    assert_eq!(add("range", "", "", "1", "20", "0"), Err(OmissionInputError::StepInvalid));
    assert_eq!(add("range", "", "", "5", "5", ""), Ok(vec![OmissionRule::Range { start: 5, end: 5 }]));
}

#[test]
fn input_errors_have_message_keys() {
    assert_eq!(
        OmissionInputError::StepInvalid.message_key(),
        Some("booth.form_errors.vendor_omission_step_invalid")
    );
    assert_eq!(
        OmissionInputError::ValueRequired.message_key(),
        Some("booth.form_errors.vendor_omission_value_required")
    );
    assert_eq!(OmissionInputError::InvalidPattern("x".to_string()).message_key(), None);
}

#[test]
fn vendor_number_rules_round_trip_through_the_form() {
    let rules = vec![
        VendorIdValidation::Unrestricted,
        VendorIdValidation::DigitsOnly { min: 3, max: Some(250) },
        VendorIdValidation::DigitsOnly { min: 1, max: None },
        VendorIdValidation::Regex("^[A-Z][0-9]+$".to_string()),
    ];
    for rule in rules {
        let fields = validation_fields(&rule);
        assert_eq!(vendor_id_validation(&fields, None), Ok(rule));
    }
    let digits = validation_fields(&VendorIdValidation::DigitsOnly { min: 3, max: Some(250) });
    assert_eq!(digits.validation_type, "digits_only");
    assert_eq!(digits.min, "3");
    assert_eq!(digits.max, "250");
    let open = validation_fields(&VendorIdValidation::Unrestricted);
    assert_eq!((open.min.as_str(), open.max.as_str()), ("1", ""));
}

#[test]
fn vendor_number_rule_fields_are_checked() {
    let fields = |kind: &str, regex: &str, min: &str, max: &str| ValidationFields {
        validation_type: kind.to_string(),
        regex: regex.to_string(),
        min: min.to_string(),
        max: max.to_string(),
    };
    assert_eq!(
        vendor_id_validation(&fields("digits_only", "", "9", "3"), None),
        Err(ValidationFieldsError::Digits(DomainError::Validation(
            ValidationError::DigitsOnlyMinMaxInvalid { min: 9, max: 3 }
        )))
    );
    assert_eq!(
        vendor_id_validation(&fields("digits_only", "", "", ""), None),
        Err(ValidationFieldsError::Digits(DomainError::Validation(
            ValidationError::DigitsOnlyConstraintInvalidNumber
        )))
    );
    assert_eq!(
        vendor_id_validation(&fields("digits_only", "", " 2 ", " "), None),
        Ok(VendorIdValidation::DigitsOnly { min: 2, max: None })
    );
    assert_eq!(
        vendor_id_validation(&fields("regex", "(", "1", ""), Some("bad pattern".to_string())),
        Err(ValidationFieldsError::Regex("bad pattern".to_string()))
    );
    assert_eq!(
        vendor_id_validation(&fields("something", "", "", ""), None),
        Ok(VendorIdValidation::DigitsOnly { min: 1, max: None })
    );
}
