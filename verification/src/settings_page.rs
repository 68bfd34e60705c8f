//! What the settings page shows and decides: the device identifier editor,
//! the integrity check, the error log's expanded entries, and the archive
//! history.

use vstd::prelude::*;

use crate::device::{identifier_error, validate_device_identifier};
use crate::text::{decimal_chars, decimal_text, replace_spec, replace_str, string_of};
use crate::translations::{lookup_text, Translations};

verus! {

/// The outcome of the last integrity check of the stored data.
#[derive(Debug, PartialEq, Eq)]
pub enum IntegrityStatus {
    Healthy,
    /// The issues found, each as its description.
    IssuesFound { issues: Vec<String> },
}

/// The integrity line: not checked yet, healthy, or how many issues.
pub open spec fn integrity_status_spec(
    status: Option<IntegrityStatus>,
    entries: Seq<(String, crate::translations::JsonValue)>,
) -> Seq<char> {
    match status {
        None => lookup_text(entries, "settings.integrity_not_checked"@),
        Some(IntegrityStatus::Healthy) => lookup_text(entries, "settings.integrity_status_healthy"@),
        Some(IntegrityStatus::IssuesFound { issues }) => replace_spec(
            lookup_text(entries, "settings.integrity_status_issues_found"@),
            "{count}"@,
            decimal_text(issues@.len()),
        ),
    }
}

/// The integrity line of the settings page.
pub fn integrity_status_text(status: &Option<IntegrityStatus>, translations: &Translations) -> (r:
    String)
    ensures
        r@ == integrity_status_spec(*status, translations.entries()),
{
    proof {
        reveal_strlit("{count}");
    }
    match status {
        None => translations.get("settings.integrity_not_checked"),
        Some(IntegrityStatus::Healthy) => translations.get("settings.integrity_status_healthy"),
        Some(IntegrityStatus::IssuesFound { issues }) => {
            let template = translations.get("settings.integrity_status_issues_found");
            let count = string_of(&decimal_chars(issues.len() as u64));
            replace_str(template.as_str(), "{count}", count.as_str())
        },
    }
}

/// The detected device line: the translated line with `{platform}` and
/// `{browser}` put in.
pub fn device_platform_info(platform: &str, browser: &str, translations: &Translations) -> (r:
    String)
    ensures
        r@ == replace_spec(
            replace_spec(
                lookup_text(translations.entries(), "settings.device_platform_info"@),
                "{platform}"@,
                platform@,
            ),
            "{browser}"@,
            browser@,
        ),
{
    proof {
        reveal_strlit("{platform}");
        reveal_strlit("{browser}");
    }
    let template = translations.get("settings.device_platform_info");
    let a = replace_str(template.as_str(), "{platform}", platform);
    replace_str(a.as_str(), "{browser}", browser)
}

/// The message under the identifier field: none for a valid identifier,
/// else the translated validation message.
pub fn device_validation_message(value: &str, translations: &Translations) -> (r: Option<String>)
    ensures
        identifier_error(value@) is None ==> r is None,
        identifier_error(value@) is Some ==> (r matches Some(m) && m@ == lookup_text(
            translations.entries(),
            "settings.device_validation_error"@,
        )),
{
    match validate_device_identifier(value) {
        Ok(()) => None,
        Err(_) => Some(translations.get("settings.device_validation_error")),
    }
}

/// The identifier can be saved when it was changed and is valid.
pub fn can_save_device_identifier(current: &str, saved: &str, has_validation_error: bool) -> (r:
    bool)
    ensures
        r == (current@ != saved@ && !has_validation_error),
{
    let a = crate::text::chars_of(current);
    let b = crate::text::chars_of(saved);
    !crate::text::chars_eq(&a, &b) && !has_validation_error
}

/// Shows the details of an error log entry, or hides them when shown.
pub fn toggle_error_details(ids: &mut Vec<u32>, id: u32)
    ensures
        old(ids)@.contains(id) ==> final(ids)@ == old(ids)@.filter(|x: u32| x != id),
        !old(ids)@.contains(id) ==> final(ids)@ == old(ids)@.push(id),
{
    let mut found = false;
    let mut i: usize = 0;
    while i < ids.len()
        invariant
            i <= ids@.len(),
            found == (exists|k: int| 0 <= k < i && ids@[k] == id),
        decreases ids.len() - i,
    {
        if ids[i] == id {
            found = true;
        }
        i = i + 1;
    }
    if !found {
        ids.push(id);
        return;
    }
    let ghost pred = |x: u32| x != id;
    let mut kept: Vec<u32> = Vec::new();
    let mut j: usize = 0;
    assert(ids@.take(0).filter(pred) =~= Seq::<u32>::empty()) by {
        reveal_with_fuel(Seq::filter, 1);
    }
    while j < ids.len()
        invariant
            j <= ids@.len(),
            pred == (|x: u32| x != id),
            kept@ == ids@.take(j as int).filter(pred),
        decreases ids.len() - j,
    {
        proof {
            ids@.take(j as int).lemma_filter_push(ids@[j as int], pred);
            assert(ids@.take(j + 1) =~= ids@.take(j as int).push(ids@[j as int]));
        }
        if ids[j] != id {
            kept.push(ids[j]);
        }
        j = j + 1;
    }
    assert(ids@.take(ids@.len() as int) =~= ids@);
    *ids = kept;
}

/// Showing and then hiding an entry's details leaves the shown entries as
/// they were.
pub proof fn lemma_toggle_error_details_twice(ids: Seq<u32>, id: u32)
    requires
        !ids.contains(id),
    ensures
        ids.push(id).contains(id),
        ids.push(id).filter(|x: u32| x != id) == ids,
{
    let pred = |x: u32| x != id;
    assert(ids.push(id)[ids.len() as int] == id);
    ids.lemma_filter_push(id, pred);
    assert(ids.filter(pred) == ids) by {
        lemma_filter_keeps_all(ids, id);
    }
}

proof fn lemma_filter_keeps_all(ids: Seq<u32>, id: u32)
    requires
        !ids.contains(id),
    ensures
        ids.filter(|x: u32| x != id) == ids,
    decreases ids.len(),
{
    let pred = |x: u32| x != id;
    if ids.len() == 0 {
        assert(ids.filter(pred) =~= ids) by {
            reveal_with_fuel(Seq::filter, 1);
        }
    } else {
        let init = ids.drop_last();
        assert(!init.contains(id)) by {
            if init.contains(id) {
                let k = choose|k: int| 0 <= k < init.len() && init[k] == id;
                assert(ids[k] == id);
            }
        }
        lemma_filter_keeps_all(init, id);
        init.lemma_filter_push(ids.last(), pred);
        assert(init.push(ids.last()) =~= ids);
    }
}

/// The database version line: `v` and the number, or `-` when unknown.
pub fn database_version_label(version: Option<u32>) -> (r: String)
    ensures
        r@ == (match version {
            Some(v) => "v"@ + decimal_text(v as nat),
            None => "-"@,
        }),
{
    match version {
        Some(v) => {
            let mut s = crate::text::owned("v");
            crate::text::append_str(&mut s, string_of(&decimal_chars(v as u64)).as_str());
            s
        },
        None => crate::text::owned("-"),
    }
}

/// The count of recent errors: a loading notice while the log loads.
pub fn recent_error_count_text(loading: bool, count: usize, translations: &Translations) -> (r:
    String)
    ensures
        loading ==> r@ == lookup_text(translations.entries(), "common.loading"@),
        !loading ==> r@ == replace_spec(
            lookup_text(translations.entries(), "settings.error_log_recent_count_value"@),
            "{count}"@,
            decimal_text(count as nat),
        ),
{
    proof {
        reveal_strlit("{count}");
    }
    if loading {
        translations.get("common.loading")
    } else {
        let template = translations.get("settings.error_log_recent_count_value");
        let digits = string_of(&decimal_chars(count as u64));
        replace_str(template.as_str(), "{count}", digits.as_str())
    }
}

/// What happened to a booth in the archive history.
#[derive(Debug, Clone, Copy, PartialEq, Eq, Structural)]
pub enum ArchiveAuditEventType {
    Archived,
    Restored,
}

impl ArchiveAuditEventType {
    /// The translated name of the event.
    pub fn label(self, translations: &Translations) -> (r: String)
        ensures
            r@ == lookup_text(
                translations.entries(),
                match self {
                    ArchiveAuditEventType::Archived => "settings.archive_history_event_archived"@,
                    ArchiveAuditEventType::Restored => "settings.archive_history_event_restored"@,
                },
            ),
    {
        match self {
            ArchiveAuditEventType::Archived => translations.get(
                "settings.archive_history_event_archived",
            ),
            ArchiveAuditEventType::Restored => translations.get(
                "settings.archive_history_event_restored",
            ),
        }
    }
}

} // verus!
