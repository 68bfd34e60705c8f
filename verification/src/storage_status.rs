//! The storage status shown in the footer: whether the data is backed up, and
//! how long ago the last backup was made. Instants are milliseconds since the
//! Unix epoch.

use vstd::prelude::*;

use crate::text::{replace_spec, replace_str, signed_decimal_chars, signed_decimal_text, string_of};

use crate::translations::{lookup_text, Translations};

verus! {

pub const MILLIS_PER_MINUTE: i128 = 60_000;

pub const MILLIS_PER_HOUR: i128 = 3_600_000;

pub const MILLIS_PER_DAY: i128 = 86_400_000;

/// A backup older than this many days is overdue in Safari, which may evict
/// site data.
pub const SAFARI_BACKUP_DAYS: i128 = 3;

/// A backup older than this many days is overdue elsewhere.
pub const BACKUP_DAYS: i128 = 30;

/// Whole `unit`s in a span of `diff` milliseconds, rounded toward zero.
pub open spec fn whole_units(diff: int, unit: int) -> int {
    if diff >= 0 {
        diff / unit
    } else {
        -((-diff) / unit)
    }
}

/// What the footer shows.
#[derive(Clone, Copy, Debug, PartialEq, Eq, Structural)]
pub enum StorageStatus {
    /// Backed up, nothing changed since (never on Safari).
    Current,
    /// Safari, whose storage may be evicted: shown unless there are unsaved
    /// changes and the last backup is at most 3 days old.
    SafariWarning,
    /// Changes since the last backup.
    UnsavedChanges,
    /// Not Safari, no unsaved changes, and the last backup is missing or more
    /// than 30 days old.
    Overdue,
}

pub open spec fn has_changes_spec(last_modified_at: Option<i64>, last_backup_at: Option<i64>) -> bool {
    match (last_modified_at, last_backup_at) {
        (Some(m), Some(b)) => m > b,
        (Some(_), None) => true,
        _ => false,
    }
}

/// Whether the last backup is more than `days` days old, or missing.
pub open spec fn overdue_after(last_backup_at: Option<i64>, now: i64, days: int) -> bool {
    match last_backup_at {
        Some(at) => now - at > days * MILLIS_PER_DAY,
        None => true,
    }
}

/// On Safari the footer is never green: it warns about Safari's storage
/// unless there are unsaved changes to report and the last backup is at most
/// 3 days old. Elsewhere unsaved changes come first, then a backup that is
/// missing or more than 30 days old.
pub open spec fn storage_status_spec(
    last_modified_at: Option<i64>,
    last_backup_at: Option<i64>,
    now: i64,
    safari: bool,
) -> StorageStatus {
    let changes = has_changes_spec(last_modified_at, last_backup_at);
    if safari {
        if changes && !overdue_after(last_backup_at, now, SAFARI_BACKUP_DAYS as int) {
            StorageStatus::UnsavedChanges
        } else {
            StorageStatus::SafariWarning
        }
    } else if changes {
        StorageStatus::UnsavedChanges
    } else if overdue_after(last_backup_at, now, BACKUP_DAYS as int) {
        StorageStatus::Overdue
    } else {
        StorageStatus::Current
    }
}

/// Whole units of `unit` milliseconds from `at` to `now`, rounded toward zero.
fn units_between(at: i64, now: i64, unit: i128) -> (r: i128)
    requires
        unit > 0,
    ensures
        r == whole_units(now - at, unit as int),
{
    let diff: i128 = (now as i128) - (at as i128);
    if diff >= 0 {
        diff / unit
    } else {
        -((-diff) / unit)
    }
}

/// Whether anything was written after the last backup.
pub fn has_changes(last_modified_at: Option<i64>, last_backup_at: Option<i64>) -> (r: bool)
    ensures
        r == has_changes_spec(last_modified_at, last_backup_at),
{
    match (last_modified_at, last_backup_at) {
        (Some(modified), Some(backup)) => modified > backup,
        (Some(_), None) => true,
        _ => false,
    }
}

/// The status to show, from the instants of the last write and the last
/// backup, the current instant and whether the browser is Safari.
pub fn storage_status(
    last_modified_at: Option<i64>,
    last_backup_at: Option<i64>,
    now: i64,
    safari: bool,
) -> (r: StorageStatus)
    ensures
        r == storage_status_spec(last_modified_at, last_backup_at, now, safari),
        safari ==> r != StorageStatus::Current,
{
    let changes = has_changes(last_modified_at, last_backup_at);
    let overdue_days: i128 = if safari {
        SAFARI_BACKUP_DAYS
    } else {
        BACKUP_DAYS
    };
    let overdue = match last_backup_at {
        Some(at) => (now as i128) - (at as i128) > overdue_days * MILLIS_PER_DAY,
        None => true,
    };
    if safari {
        if changes && !overdue {
            StorageStatus::UnsavedChanges
        } else {
            StorageStatus::SafariWarning
        }
    } else if changes {
        StorageStatus::UnsavedChanges
    } else if overdue {
        StorageStatus::Overdue
    } else {
        StorageStatus::Current
    }
}

/// How long ago a backup was made, in the unit the footer shows it in.
#[derive(Clone, Copy, Debug, PartialEq, Eq, Structural)]
pub enum BackupAge {
    /// Less than two minutes.
    JustNow,
    /// Whole minutes, under an hour.
    Minutes(i128),
    /// Whole hours, under a day.
    Hours(i128),
    /// Whole days.
    Days(i128),
}

pub open spec fn backup_age_spec(at: i64, now: i64) -> BackupAge {
    let d = now - at;
    let minutes = whole_units(d, MILLIS_PER_MINUTE as int);
    let hours = whole_units(d, MILLIS_PER_HOUR as int);
    let days = whole_units(d, MILLIS_PER_DAY as int);
    if minutes < 2 {
        BackupAge::JustNow
    } else if hours < 1 {
        BackupAge::Minutes(minutes as i128)
    } else if days < 1 {
        BackupAge::Hours(hours as i128)
    } else {
        BackupAge::Days(days as i128)
    }
}

/// The age of the backup made at `at`, seen at `now`.
pub fn format_backup_age(at: i64, now: i64) -> (r: BackupAge)
    ensures
        r == backup_age_spec(at, now),
{
    let minutes = units_between(at, now, MILLIS_PER_MINUTE);
    let hours = units_between(at, now, MILLIS_PER_HOUR);
    let days = units_between(at, now, MILLIS_PER_DAY);
    if minutes < 2 {
        BackupAge::JustNow
    } else if hours < 1 {
        BackupAge::Minutes(minutes)
    } else if days < 1 {
        BackupAge::Hours(hours)
    } else {
        BackupAge::Days(days)
    }
}

/// The age line: for minutes, hours and days the translated `template` with
/// `{n}` replaced by the number; "just now" has no number.
pub open spec fn backup_age_text_spec(template: Seq<char>, age: BackupAge) -> Seq<char> {
    match age {
        BackupAge::JustNow => template,
        BackupAge::Minutes(n) => replace_spec(template, "{n}"@, signed_decimal_text(n as int)),
        BackupAge::Hours(n) => replace_spec(template, "{n}"@, signed_decimal_text(n as int)),
        BackupAge::Days(n) => replace_spec(template, "{n}"@, signed_decimal_text(n as int)),
    }
}

/// The translation key of the age line of each unit.
pub open spec fn backup_age_key(age: BackupAge) -> Seq<char> {
    match age {
        BackupAge::JustNow => "backup.status_age_just_now"@,
        BackupAge::Minutes(_) => "backup.status_age_minutes"@,
        BackupAge::Hours(_) => "backup.status_age_hours"@,
        BackupAge::Days(_) => "backup.status_age_days"@,
    }
}

/// Writes how long ago the backup was made, in the translated line of its unit.
pub fn backup_age_text(age: BackupAge, translations: &Translations) -> (r: String)
    requires
        match age {
            BackupAge::Minutes(n) | BackupAge::Hours(n) | BackupAge::Days(n) => i64::MIN <= n
                <= i64::MAX,
            BackupAge::JustNow => true,
        },
    ensures
        r@ == backup_age_text_spec(lookup_text(translations.entries(), backup_age_key(age)), age),
{
    proof {
        reveal_strlit("{n}");
    }
    let key = match age {
        BackupAge::JustNow => "backup.status_age_just_now",
        BackupAge::Minutes(_) => "backup.status_age_minutes",
        BackupAge::Hours(_) => "backup.status_age_hours",
        BackupAge::Days(_) => "backup.status_age_days",
    };
    let template_text = translations.get(key);
    let template = template_text.as_str();
    let n: i128 = match age {
        BackupAge::JustNow => {
            return crate::text::owned(template);
        },
        BackupAge::Minutes(n) | BackupAge::Hours(n) | BackupAge::Days(n) => n,
    };
    let digits = string_of(&signed_decimal_chars(n as i64));
    replace_str(template, "{n}", digits.as_str())
}

/// The earliest instant of errors counted as recent: 24 hours before `now`.
pub fn recent_error_cutoff(now: i64) -> (r: i64)
    requires
        now >= i64::MIN + 86_400_000,
    ensures
        r == now - 86_400_000,
{
    now - 86_400_000
}

/// With no backup ever made, the footer never shows the data as current.
pub proof fn lemma_never_backed_up_is_not_current(
    last_modified_at: Option<i64>,
    now: i64,
    safari: bool,
)
    ensures
        storage_status_spec(last_modified_at, None, now, safari) != StorageStatus::Current,
{
}

/// Outside Safari, a backup made after the last write and at most 30 days ago
/// shows as current; on Safari the footer always warns, whatever the backup.
pub proof fn lemma_fresh_backup_is_current(
    last_modified_at: Option<i64>,
    at: i64,
    now: i64,
    safari: bool,
)
    requires
        match last_modified_at {
            Some(m) => m <= at,
            None => true,
        },
        at <= now,
        now - at <= 30 * MILLIS_PER_DAY,
    ensures
        !safari ==> storage_status_spec(last_modified_at, Some(at), now, safari)
            == StorageStatus::Current,
        safari ==> storage_status_spec(last_modified_at, Some(at), now, safari)
            == StorageStatus::SafariWarning,
{
}

/// On Safari the footer is never green.
pub proof fn lemma_safari_is_never_current(
    last_modified_at: Option<i64>,
    last_backup_at: Option<i64>,
    now: i64,
)
    ensures
        storage_status_spec(last_modified_at, last_backup_at, now, true) != StorageStatus::Current,
{
}

/// Whether a user agent is Safari's, whose storage the footer treats as
/// unreliable.
pub fn is_safari(user_agent: &str) -> (r: bool)
    ensures
        r == (crate::device::browser_of(crate::text::lower_seq(user_agent@)) == "Safari"@),
{
    let browser = crate::device::detect_browser(user_agent);
    crate::text::chars_eq_str(&crate::text::chars_of(browser), "Safari")
}

} // verus!
