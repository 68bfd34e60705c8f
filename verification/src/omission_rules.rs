//! Rules that leave vendor numbers out of a booth, as the booth form adds and
//! lists them.

use vstd::prelude::*;

use crate::booth_form::{exact_values, parse_exact_omission_values, parse_u32_input};
use crate::device::{byte_len, byte_len_capped};
use crate::text::{
    append_str, chars_eq_str, chars_of, decimal_chars, decimal_text, parse_unsigned_spec, split_spec,
    string_of, trim_chars, trim_spec,
};
use crate::translations::{lookup_text, Translations};

verus! {

/// Longest wildcard pattern, in UTF-8 bytes.
pub const WILDCARD_PATTERN_MAX_BYTES: usize = 100;

/// A rule that leaves vendor numbers out.
#[derive(Debug, PartialEq, Eq)]
pub enum OmissionRule {
    /// This vendor number.
    Exact(String),
    /// Vendor numbers matching a wildcard pattern.
    Wildcard(String),
    /// Vendor numbers matching a regular expression.
    Regex(String),
    /// Vendor numbers from `start` to `end`.
    Range { start: u32, end: u32 },
    /// Every `step`-th vendor number from `start` to `end`.
    RangeWithStep { start: u32, end: u32, step: u32 },
}

/// The translation key of a rule's kind.
pub open spec fn rule_type_key(rule: OmissionRule) -> Seq<char> {
    match rule {
        OmissionRule::Exact(_) => "booth.vendor_omission_type_exact"@,
        OmissionRule::Wildcard(_) => "booth.vendor_omission_type_wildcard"@,
        OmissionRule::Regex(_) => "booth.vendor_omission_type_regex"@,
        OmissionRule::Range { .. } => "booth.vendor_omission_type_range"@,
        OmissionRule::RangeWithStep { .. } => "booth.vendor_omission_type_range"@,
    }
}

/// How a rule's value is shown: the number or pattern, or `start-end` with
/// ` (step n)` for a stepped range.
pub open spec fn rule_value_text(rule: OmissionRule) -> Seq<char> {
    match rule {
        OmissionRule::Exact(v) => v@,
        OmissionRule::Wildcard(p) => p@,
        OmissionRule::Regex(p) => p@,
        OmissionRule::Range { start, end } => decimal_text(start as nat) + "-"@ + decimal_text(
            end as nat,
        ),
        OmissionRule::RangeWithStep { start, end, step } => decimal_text(start as nat) + "-"@
            + decimal_text(end as nat) + " (step "@ + decimal_text(step as nat) + ")"@,
    }
}

fn rule_type_key_of(rule: &OmissionRule) -> (r: &'static str)
    ensures
        r@ == rule_type_key(*rule),
{
    match rule {
        OmissionRule::Exact(_) => "booth.vendor_omission_type_exact",
        OmissionRule::Wildcard(_) => "booth.vendor_omission_type_wildcard",
        OmissionRule::Regex(_) => "booth.vendor_omission_type_regex",
        OmissionRule::Range { .. } => "booth.vendor_omission_type_range",
        OmissionRule::RangeWithStep { .. } => "booth.vendor_omission_type_range",
    }
}

/// The translated name of a rule's kind.
pub fn omission_rule_type_label(rule: &OmissionRule, translations: &Translations) -> (r: String)
    ensures
        r@ == lookup_text(translations.entries(), rule_type_key(*rule)),
{
    translations.get(rule_type_key_of(rule))
}

fn append_number(s: &mut String, n: u32)
    ensures
        final(s)@ == old(s)@ + decimal_text(n as nat),
{
    append_str(s, string_of(&decimal_chars(n as u64)).as_str());
}

/// How a rule's value is shown.
pub fn omission_rule_value(rule: &OmissionRule) -> (r: String)
    ensures
        r@ == rule_value_text(*rule),
{
    match rule {
        OmissionRule::Exact(v) => v.clone(),
        OmissionRule::Wildcard(p) => p.clone(),
        OmissionRule::Regex(p) => p.clone(),
        OmissionRule::Range { start, end } => {
            let mut s = String::new();
            append_number(&mut s, *start);
            append_str(&mut s, "-");
            append_number(&mut s, *end);
            s
        },
        OmissionRule::RangeWithStep { start, end, step } => {
            let mut s = String::new();
            append_number(&mut s, *start);
            append_str(&mut s, "-");
            append_number(&mut s, *end);
            append_str(&mut s, " (step ");
            append_number(&mut s, *step);
            append_str(&mut s, ")");
            s
        },
    }
}

/// The key that identifies a listed rule: its position, kind and value,
/// separated by colons.
pub fn omission_rule_key(index: usize, rule: &OmissionRule, translations: &Translations) -> (r:
    String)
    ensures
        r@ == decimal_text(index as nat) + ":"@ + lookup_text(
            translations.entries(),
            rule_type_key(*rule),
        ) + ":"@ + rule_value_text(*rule),
{
    let mut s = string_of(&decimal_chars(index as u64));
    append_str(&mut s, ":");
    append_str(&mut s, omission_rule_type_label(rule, translations).as_str());
    append_str(&mut s, ":");
    append_str(&mut s, omission_rule_value(rule).as_str());
    s
}

/// Why the rules typed into the form cannot be added.
#[derive(Debug, PartialEq, Eq)]
pub enum OmissionInputError {
    /// No vendor number was given.
    ValueRequired,
    /// No pattern was given.
    PatternRequired,
    /// The wildcard pattern is longer than 100 bytes.
    PatternTooLong,
    /// The regular expression was refused, with the message to show.
    InvalidPattern(String),
    /// A range bound is not a number.
    NumberRequired,
    /// The range starts after it ends.
    RangeInvalid,
    /// The step is not a number.
    StepRequired,
    /// The step is zero.
    StepInvalid,
}

impl OmissionInputError {
    /// The translation key of the message, where the form translates it.
    pub fn message_key(&self) -> (r: Option<&'static str>)
        ensures
            r matches Some(k) ==> k@ == (match *self {
                OmissionInputError::ValueRequired => "booth.form_errors.vendor_omission_value_required"@,
                OmissionInputError::PatternRequired => "booth.form_errors.vendor_omission_pattern_required"@,
                OmissionInputError::PatternTooLong => "booth.form_errors.vendor_omission_pattern_too_long"@,
                OmissionInputError::NumberRequired => "booth.form_errors.vendor_omission_number_required"@,
                OmissionInputError::RangeInvalid => "booth.form_errors.vendor_omission_range_invalid"@,
                OmissionInputError::StepRequired => "booth.form_errors.vendor_omission_step_required"@,
                OmissionInputError::StepInvalid => "booth.form_errors.vendor_omission_step_invalid"@,
                OmissionInputError::InvalidPattern(_) => Seq::empty(),
            }),
            r is None <==> *self is InvalidPattern,
    {
        match self {
            OmissionInputError::ValueRequired => Some(
                "booth.form_errors.vendor_omission_value_required",
            ),
            OmissionInputError::PatternRequired => Some(
                "booth.form_errors.vendor_omission_pattern_required",
            ),
            OmissionInputError::PatternTooLong => Some(
                "booth.form_errors.vendor_omission_pattern_too_long",
            ),
            OmissionInputError::InvalidPattern(_) => None,
            OmissionInputError::NumberRequired => Some(
                "booth.form_errors.vendor_omission_number_required",
            ),
            OmissionInputError::RangeInvalid => Some(
                "booth.form_errors.vendor_omission_range_invalid",
            ),
            OmissionInputError::StepRequired => Some(
                "booth.form_errors.vendor_omission_step_required",
            ),
            OmissionInputError::StepInvalid => Some(
                "booth.form_errors.vendor_omission_step_invalid",
            ),
        }
    }
}

/// A number typed into a range field: trimmed, a `u32`.
pub open spec fn u32_input(value: Seq<char>) -> Option<u32> {
    match parse_unsigned_spec(trim_spec(value), u32::MAX as nat) {
        Some(n) => Some(n as u32),
        None => None,
    }
}

/// The exact rules of a comma-separated list of vendor numbers: one per
/// distinct trimmed value, in order.
pub open spec fn exact_rules_match(rules: Seq<OmissionRule>, value: Seq<char>) -> bool {
    let values = exact_values(split_spec(value, ','));
    &&& rules.len() == values.len()
    &&& forall|k: int| 0 <= k < rules.len() ==> (#[trigger] rules[k] matches OmissionRule::Exact(v) && v@ == values[k])
}

/// Whether `r` is what the form adds for a range with the given fields.
pub open spec fn range_outcome(
    r: Result<Vec<OmissionRule>, OmissionInputError>,
    range_start: Seq<char>,
    range_end: Seq<char>,
    range_step: Seq<char>,
) -> bool {
    match (u32_input(range_start), u32_input(range_end)) {
        (Some(start), Some(end)) => if start > end {
            r == Err::<Vec<OmissionRule>, OmissionInputError>(OmissionInputError::RangeInvalid)
        } else if trim_spec(range_step).len() == 0 {
            r matches Ok(v) && v@ == seq![OmissionRule::Range { start, end }]
        } else {
            match u32_input(range_step) {
                None => r == Err::<Vec<OmissionRule>, OmissionInputError>(
                    OmissionInputError::StepRequired,
                ),
                Some(step) => if step == 0 {
                    r == Err::<Vec<OmissionRule>, OmissionInputError>(
                        OmissionInputError::StepInvalid,
                    )
                } else {
                    r matches Ok(v) && v@ == seq![OmissionRule::RangeWithStep { start, end, step }]
                },
            }
        },
        _ => r == Err::<Vec<OmissionRule>, OmissionInputError>(OmissionInputError::NumberRequired),
    }
}

fn exact_rules(value: &str) -> (r: Result<Vec<OmissionRule>, OmissionInputError>)
    ensures
        exact_values(split_spec(value@, ',')).len() == 0 ==> r == Err::<
            Vec<OmissionRule>,
            OmissionInputError,
        >(OmissionInputError::ValueRequired),
        exact_values(split_spec(value@, ',')).len() > 0 ==> (r matches Ok(v) && exact_rules_match(
            v@,
            value@,
        )),
{
    let values = parse_exact_omission_values(value);
    if values.len() == 0 {
        return Err(OmissionInputError::ValueRequired);
    }
    let ghost expected = exact_values(split_spec(value@, ','));
    let mut rules: Vec<OmissionRule> = Vec::new();
    let mut i: usize = 0;
    while i < values.len()
        invariant
            i <= values@.len(),
            values@.len() == expected.len(),
            forall|k: int| 0 <= k < values@.len() ==> #[trigger] values@[k]@ == expected[k],
            rules@.len() == i,
            forall|k: int| 0 <= k < i ==> (#[trigger] rules@[k] matches OmissionRule::Exact(v) && v@ == expected[k]),
        decreases values.len() - i,
    {
        rules.push(OmissionRule::Exact(values[i].clone()));
        i = i + 1;
    }
    Ok(rules)
}

fn range_rules(range_start: &str, range_end: &str, range_step: &str) -> (r: Result<
    Vec<OmissionRule>,
    OmissionInputError,
>)
    ensures
        range_outcome(r, range_start@, range_end@, range_step@),
{
    let start = match parse_u32_input(range_start) {
        Some(n) => n,
        None => return Err(OmissionInputError::NumberRequired),
    };
    let end = match parse_u32_input(range_end) {
        Some(n) => n,
        None => return Err(OmissionInputError::NumberRequired),
    };
    if start > end {
        return Err(OmissionInputError::RangeInvalid);
    }
    if trim_chars(&chars_of(range_step)).len() == 0 {
        let mut v: Vec<OmissionRule> = Vec::new();
        v.push(OmissionRule::Range { start, end });
        assert(v@ =~= seq![OmissionRule::Range { start, end }]);
        return Ok(v);
    }
    let step = match parse_u32_input(range_step) {
        Some(n) => n,
        None => return Err(OmissionInputError::StepRequired),
    };
    if step == 0 {
        return Err(OmissionInputError::StepInvalid);
    }
    let mut v: Vec<OmissionRule> = Vec::new();
    v.push(OmissionRule::RangeWithStep { start, end, step });
    assert(v@ =~= seq![OmissionRule::RangeWithStep { start, end, step }]);
    Ok(v)
}

/// The rules that the form adds for the kind picked (`"exact"`, `"wildcard"`,
/// `"regex"`, `"range"`; anything else reads as exact) and the fields typed.
/// `regex_error` is the message for the trimmed pattern when the regular
/// expression check refused it.
pub fn new_omission_rules(
    rule_type: &str,
    value: &str,
    pattern: &str,
    range_start: &str,
    range_end: &str,
    range_step: &str,
    regex_error: Option<String>,
) -> (r: Result<Vec<OmissionRule>, OmissionInputError>)
    ensures
        rule_type@ == "wildcard"@ ==> {
            let p = trim_spec(pattern@);
            if p.len() == 0 {
                r == Err::<Vec<OmissionRule>, OmissionInputError>(
                    OmissionInputError::PatternRequired,
                )
            } else if byte_len(p) > WILDCARD_PATTERN_MAX_BYTES {
                r == Err::<Vec<OmissionRule>, OmissionInputError>(
                    OmissionInputError::PatternTooLong,
                )
            } else {
                r matches Ok(v) && v@.len() == 1 && (v@[0] matches OmissionRule::Wildcard(s) && s@
                    == p)
            }
        },
        rule_type@ == "regex"@ ==> match regex_error {
            Some(m) => r == Err::<Vec<OmissionRule>, OmissionInputError>(
                OmissionInputError::InvalidPattern(m),
            ),
            None => r matches Ok(v) && v@.len() == 1 && (v@[0] matches OmissionRule::Regex(s) && s@
                == trim_spec(pattern@)),
        },
        rule_type@ == "range"@ ==> range_outcome(r, range_start@, range_end@, range_step@),
        rule_type@ != "wildcard"@ && rule_type@ != "regex"@ && rule_type@ != "range"@ ==> {
            if exact_values(split_spec(value@, ',')).len() == 0 {
                r == Err::<Vec<OmissionRule>, OmissionInputError>(
                    OmissionInputError::ValueRequired,
                )
            } else {
                r matches Ok(v) && exact_rules_match(v@, value@)
            }
        },
{
    proof {
        reveal_strlit("wildcard");
        reveal_strlit("regex");
        reveal_strlit("range");
        assert("wildcard"@[0] != "regex"@[0]);
        assert("wildcard"@[0] != "range"@[0]);
        assert("regex"@[1] != "range"@[1]);
    }
    let kind = chars_of(rule_type);
    if chars_eq_str(&kind, "wildcard") {
        let p = trim_chars(&chars_of(pattern));
        if p.len() == 0 {
            return Err(OmissionInputError::PatternRequired);
        }
        if byte_len_capped(&p, WILDCARD_PATTERN_MAX_BYTES) > WILDCARD_PATTERN_MAX_BYTES {
            return Err(OmissionInputError::PatternTooLong);
        }
        let mut v: Vec<OmissionRule> = Vec::new();
        v.push(OmissionRule::Wildcard(string_of(&p)));
        Ok(v)
    } else if chars_eq_str(&kind, "regex") {
        match regex_error {
            Some(m) => Err(OmissionInputError::InvalidPattern(m)),
            None => {
                let p = trim_chars(&chars_of(pattern));
                let mut v: Vec<OmissionRule> = Vec::new();
                v.push(OmissionRule::Regex(string_of(&p)));
                Ok(v)
            },
        }
    } else if chars_eq_str(&kind, "range") {
        range_rules(range_start, range_end, range_step)
    } else {
        exact_rules(value)
    }
}

} // verus!
