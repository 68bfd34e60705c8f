use ez_vend::migration_issues::{format_issue, DetectedPlatform, IssueCategory, ValidationIssue};
use ez_vend::translations::{JsonValue, Translations};

fn migration_texts() -> Translations {
    let text = |k: &str, v: &str| (k.to_string(), JsonValue::String(v.to_string()));
    Translations::from_entries(vec![(
        "migration".to_string(),
        JsonValue::Object(vec![
            (
                "issue".to_string(),
                JsonValue::Object(vec![
                    text("purchase_total_mismatch", "Purchase {purchase_id}: expected {expected}, got {actual}"),
                    text("purchase_item_missing_vendor", "{booth_id}/{purchase_id}/{item_id}/{vendor_id}"),
                ]),
            ),
            (
                "issue_category".to_string(),
                JsonValue::Object(vec![(
                    "vendor_missing_booth".to_string(),
                    JsonValue::Object(vec![
                        text("title", "Vendors without booth"),
                        text("impact", "{count} vendors affected"),
                        text("explanation", "These vendors point to a missing booth."),
                        text("guidance", "Check the booth list."),
                    ]),
                )]),
            ),
            (
                "file_location".to_string(),
                JsonValue::Object(vec![(
                    "platform".to_string(),
                    JsonValue::Object(vec![text("windows", "Windows"), text("macos", "macOS")]),
                )]),
            ),
        ]),
    )])
}
use ez_vend::pagination::page_info_text;
use ez_vend::storage_status::{backup_age_text, BackupAge};
use ez_vend::text::{decimal_chars, replace_str, signed_decimal_chars};

#[test]
fn replace_matches_std() {
    for (s, from, to) in [
        ("a{n}b{n}", "{n}", "7"),
        ("aaaa", "aa", "b"),
        ("{n", "{n}", "x"),
        ("", "x", "y"),
        ("äöü{x}", "{x}", "ß"),
    ] {
        assert_eq!(replace_str(s, from, to), s.replace(from, to));
    }
}

#[test]
fn decimal_numbers_match_display() {
    for n in [0u64, 7, 10, 99, 1234567890, u64::MAX] {
        assert_eq!(decimal_chars(n).into_iter().collect::<String>(), n.to_string());
    }
    for n in [0i64, -1, 42, i64::MIN, i64::MAX] {
        assert_eq!(signed_decimal_chars(n).into_iter().collect::<String>(), n.to_string());
    }
}

#[test]
fn issue_messages_are_filled() {
    let issue = ValidationIssue::PurchaseTotalMismatch {
        purchase_id: "P-1".to_string(),
        expected: "10.00".to_string(),
        actual: "9.50".to_string(),
    };
    let t = migration_texts();
    assert_eq!(format_issue(&issue, &t), "Purchase P-1: expected 10.00, got 9.50");
    let item = ValidationIssue::PurchaseItemMissingVendor {
        booth_id: "B".to_string(),
        purchase_id: "P".to_string(),
        item_id: "I".to_string(),
        vendor_id: "V".to_string(),
    };
    assert_eq!(format_issue(&item, &t), "B/P/I/V");
    let missing = ValidationIssue::PurchaseWithoutItems { purchase_id: "P".to_string() };
    assert_eq!(format_issue(&missing, &t), "[missing: migration.issue.purchase_without_items]");
    let c = IssueCategory::VendorMissingBooth;
    assert_eq!(c.impact(12, &t), "12 vendors affected");
    assert_eq!(c.title(&t), "Vendors without booth");
    assert_eq!(c.explanation(&t), "These vendors point to a missing booth.");
    assert_eq!(c.guidance(&t), "Check the booth list.");
    assert_eq!(
        IssueCategory::PurchaseWithoutItems.title(&t),
        "[missing: migration.issue_category.purchase_without_items.title]"
    );
    assert_eq!(DetectedPlatform::Windows.label(&t), "Windows");
    assert_eq!(DetectedPlatform::MacOs.label(&t), "macOS");
    assert_eq!(
        DetectedPlatform::Linux.label(&t),
        "[missing: migration.file_location.platform.linux]"
    );
}

fn page_texts() -> Translations {
    let text = |k: &str, v: &str| (k.to_string(), JsonValue::String(v.to_string()));
    Translations::from_entries(vec![
        (
            "vendor".to_string(),
            JsonValue::Object(vec![(
                "pagination".to_string(),
                JsonValue::Object(vec![text("page_info", "Page {current} of {total} ({count} entries)")]),
            )]),
        ),
        (
            "backup".to_string(),
            JsonValue::Object(vec![
                text("status_age_just_now", "gerade eben"),
                text("status_age_minutes", "vor {n} Minuten"),
                text("status_age_hours", "{n} Stunden"),
                text("status_age_days", "{n} days ago"),
            ]),
        ),
    ])
}

#[test]
fn page_and_age_lines() {
    assert_eq!(
        page_info_text("vendor.pagination", 1, 5, 43, &page_texts()),
        "Page 2 of 5 (43 entries)"
    );
    let t = page_texts();
    assert_eq!(backup_age_text(BackupAge::Minutes(5), &t), "vor 5 Minuten");
    assert_eq!(backup_age_text(BackupAge::JustNow, &t), "gerade eben");
    assert_eq!(backup_age_text(BackupAge::Days(31), &t), "31 days ago");
    assert_eq!(backup_age_text(BackupAge::Hours(-2), &t), "-2 Stunden");
}
