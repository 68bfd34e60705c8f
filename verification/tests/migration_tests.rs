use ez_vend::migration_issues::{
    file_location_description, issues_found_text, migration_success_message, skip_summary_text,
    skipped_count, toggle_expanded_category, validation_status_key, DetectedPlatform,
    IssueCategory, MigrationCounts,
};
use ez_vend::translations::{JsonValue, Translations};

fn texts() -> Translations {
    let text = |k: &str, v: &str| (k.to_string(), JsonValue::String(v.to_string()));
    Translations::from_entries(vec![(
        "migration".to_string(),
        JsonValue::Object(vec![
            (
                "validation".to_string(),
                JsonValue::Object(vec![
                    text("issues_found", "{count} Probleme"),
                    text("skip_summary", "{vendors} Verkäufer und {purchases} Käufe entfallen"),
                ]),
            ),
            (
                "success".to_string(),
                JsonValue::Object(vec![text(
                    "summary",
                    "{booths}/{vendors}/{purchases} übernommen, {skipped_vendors}+{skipped_purchases} ausgelassen",
                )]),
            ),
            (
                "file_location".to_string(),
                JsonValue::Object(vec![
                    text("description", "Auf {platform} liegt die Datei hier:"),
                    (
                        "platform".to_string(),
                        JsonValue::Object(vec![text("linux", "Linux")]),
                    ),
                ]),
            ),
        ]),
    )])
}

#[test]
fn expanded_categories_toggle() {
    let mut expanded: Vec<IssueCategory> = Vec::new();
    toggle_expanded_category(&mut expanded, IssueCategory::VendorMissingBooth);
    assert!(expanded.contains(&IssueCategory::VendorMissingBooth));
    toggle_expanded_category(&mut expanded, IssueCategory::PurchaseWithoutItems);
    toggle_expanded_category(&mut expanded, IssueCategory::VendorMissingBooth);
    assert!(!expanded.contains(&IssueCategory::VendorMissingBooth));
    assert!(expanded.contains(&IssueCategory::PurchaseWithoutItems));
    let mut repeated = vec![IssueCategory::PurchaseTotalMismatch, IssueCategory::PurchaseTotalMismatch];
    toggle_expanded_category(&mut repeated, IssueCategory::PurchaseTotalMismatch);
    assert!(repeated.is_empty());
}

#[test]
fn migration_messages() {
    let t = texts();
    assert_eq!(skipped_count(10, 7), 3);
    assert_eq!(skipped_count(3, 7), 0);
    assert_eq!(issues_found_text(4, &t), "4 Probleme");
    assert_eq!(skip_summary_text(2, 5, &t), "2 Verkäufer und 5 Käufe entfallen");
    let counts = MigrationCounts {
        booths: 1,
        vendors: 20,
        purchases: 300,
        skipped_vendors: 2,
        skipped_purchases: 0,
    };
    assert_eq!(migration_success_message(counts, &t), "1/20/300 übernommen, 2+0 ausgelassen");
    assert_eq!(validation_status_key(0), "migration.status.ready_clean");
    assert_eq!(validation_status_key(3), "migration.status.ready_issues");
    assert_eq!(
        file_location_description(DetectedPlatform::Linux, &t),
        "Auf Linux liegt die Datei hier:"
    );
}
