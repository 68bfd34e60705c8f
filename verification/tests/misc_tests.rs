use ez_vend::translations::{JsonValue, Translations};
use ez_vend::archive::{confirmation_token_from_id_str, token_matches};
use ez_vend::booth_selection::{
    auto_select_single_booth, bumped_version, initial_list_version, load_selected_booth_id,
    refresh_action, restore_action, selector_booths, selector_empty_texts, storage_change,
    sync_list_version, BoothLookup,
    SelectionAction, StorageChange,
};
use ez_vend::import_plan::{
    apply_wizard_decisions_to_payload, BoothBackup, BoothRecord, FullBackup, ImportPayload,
    OwnedRecord, WizardChoice,
};
use ez_vend::migration_issues::{
    detect_platform, group_issues, DetectedPlatform, IssueCategory, IssueSeverity,
    ValidationIssue,
};
use ez_vend::settings_tabs::{
    settings_tab_hash, settings_tab_id, settings_tab_index_from_hash, settings_tab_index_from_id,
    settings_tab_index_from_location,
};
use ez_vend::storage_status::{
    format_backup_age, has_changes, is_safari, recent_error_cutoff, storage_status, BackupAge,
    StorageStatus,
};
use ez_vend::two_step_delete::{use_two_step_delete, TwoStepDeleteController};

#[test]
fn archive_tokens() {
    assert_eq!(confirmation_token_from_id_str("3f2a-91bc-77de"), "77DE");
    assert_eq!(confirmation_token_from_id_str("a-b-c"), "ARCHIVE");
    assert_eq!(confirmation_token_from_id_str("ab-cd"), "ABCD");
    assert!(token_matches("  77de ", "77DE"));
    assert!(!token_matches("77d", "77DE"));
}

#[test]
fn settings_tabs_round_trip() {
    for i in 0..3 {
        assert_eq!(settings_tab_index_from_id(settings_tab_id(i)), i);
        assert_eq!(settings_tab_index_from_hash(settings_tab_hash(i)), i);
    }
    assert_eq!(settings_tab_id(9), "general");
    assert_eq!(settings_tab_hash(9), "#general");
    assert_eq!(settings_tab_index_from_hash("##migration"), 2);
    assert_eq!(settings_tab_index_from_id("unknown"), 0);
    assert_eq!(
        settings_tab_index_from_location(Some("diagnostics".to_string()), Some("#migration".to_string())),
        1
    );
    assert_eq!(settings_tab_index_from_location(None, Some("#migration".to_string())), 2);
    assert_eq!(settings_tab_index_from_location(None, None), 0);
}

#[test]
fn two_step_delete_arms_then_confirms() {
    let mut c: TwoStepDeleteController<u32> = use_two_step_delete();
    assert!(!c.is_armed(&1));
    assert!(!c.confirm_with(&1));
    c.arm(1);
    assert!(c.is_armed(&1));
    assert!(!c.is_armed(&2));
    assert!(!c.confirm_with(&2));
    assert!(c.is_armed(&1));
    assert!(c.confirm_with(&1));
    assert!(!c.is_armed(&1));
    c.arm(3);
    c.arm(4);
    assert_eq!(c.signal(), &Some(4));
    c.reset();
    assert_eq!(c.signal(), &None);
    let d: TwoStepDeleteController<String> = TwoStepDeleteController::new();
    assert_eq!(d.signal(), &None);
}

#[test]
fn storage_status_states() {
    let day: i64 = 86_400_000;
    let now: i64 = 1_800_000_000_000;
    assert_eq!(storage_status(None, Some(now - day), now, false), StorageStatus::Current);
    assert_eq!(storage_status(Some(now - 10), Some(now - day), now, false), StorageStatus::UnsavedChanges);
    assert_eq!(storage_status(None, None, now, false), StorageStatus::Overdue);
    assert_eq!(storage_status(None, None, now, true), StorageStatus::SafariWarning);
    assert_eq!(storage_status(None, Some(now - 3 * day - 1), now, true), StorageStatus::SafariWarning);
    assert_eq!(storage_status(None, Some(now - 3 * day), now, true), StorageStatus::SafariWarning);
    assert_eq!(storage_status(None, Some(now - day), now, true), StorageStatus::SafariWarning);
    assert_eq!(storage_status(Some(now - 10), Some(now - day), now, true), StorageStatus::UnsavedChanges);
    assert_eq!(storage_status(Some(now - 10), Some(now - 4 * day), now, true), StorageStatus::SafariWarning);
    assert_eq!(storage_status(Some(now - 10), None, now, true), StorageStatus::SafariWarning);
    assert_eq!(storage_status(None, Some(now - 30 * day), now, false), StorageStatus::Current);
    assert_eq!(storage_status(None, Some(now - 30 * day - 1), now, false), StorageStatus::Overdue);
    assert_eq!(storage_status(None, Some(now - 31 * day), now, false), StorageStatus::Overdue);
    assert_eq!(storage_status(Some(now), Some(now - 31 * day), now, false), StorageStatus::UnsavedChanges);
    assert!(has_changes(Some(1), None));
    assert!(!has_changes(None, Some(1)));
    assert!(!has_changes(Some(1), Some(1)));
}

#[test]
fn backup_ages() {
    let minute: i64 = 60_000;
    let now: i64 = 1_800_000_000_000;
    assert_eq!(format_backup_age(now - minute, now), BackupAge::JustNow);
    assert_eq!(format_backup_age(now + 5 * minute, now), BackupAge::JustNow);
    assert_eq!(format_backup_age(now - 5 * minute, now), BackupAge::Minutes(5));
    assert_eq!(format_backup_age(now - 125 * minute, now), BackupAge::Hours(2));
    assert_eq!(format_backup_age(now - 3 * 24 * 60 * minute, now), BackupAge::Days(3));
    assert_eq!(recent_error_cutoff(now), now - 86_400_000);
}

#[test]
fn issues_are_grouped_in_category_order() {
    let issues = vec![
        ValidationIssue::PurchaseWithoutItems { purchase_id: "p1".to_string() },
        ValidationIssue::PurchaseTotalMismatch {
            purchase_id: "p2".to_string(),
            expected: "10.00".to_string(),
            actual: "9.50".to_string(),
        },
        ValidationIssue::PurchaseWithoutItems { purchase_id: "p3".to_string() },
    ];
    let groups = group_issues(&issues);
    assert_eq!(groups.len(), 2);
    assert_eq!(groups[0].category, IssueCategory::PurchaseTotalMismatch);
    assert_eq!(groups[0].count(), 1);
    assert_eq!(groups[1].category, IssueCategory::PurchaseWithoutItems);
    assert_eq!(groups[1].count(), 2);
    assert!(matches!(&groups[1].issues[1], ValidationIssue::PurchaseWithoutItems { purchase_id } if purchase_id == "p3"));
    assert!(group_issues(&Vec::new()).is_empty());
    assert_eq!(IssueCategory::PurchaseTotalMismatch.severity(), IssueSeverity::Error);
    assert_eq!(IssueCategory::VendorMissingBooth.severity(), IssueSeverity::Warning);
    assert_eq!(IssueCategory::PurchaseWithoutItems.badge_classes(), "bg-blue-100 text-blue-900");
    assert_eq!(
        IssueCategory::PurchaseMissingBooth.container_classes(),
        "border-amber-300 bg-amber-50 text-amber-950"
    );
}

#[test]
fn migration_platforms() {
    assert_eq!(detect_platform("Windows"), DetectedPlatform::Windows);
    assert_eq!(detect_platform("macOS"), DetectedPlatform::MacOs);
    assert_eq!(detect_platform("iPhone"), DetectedPlatform::Ios);
    assert_eq!(detect_platform("Linux"), DetectedPlatform::Linux);
    assert_eq!(detect_platform("Unknown"), DetectedPlatform::Other);
    assert_eq!(DetectedPlatform::Ios.default_path(), "");
    assert_eq!(
        DetectedPlatform::Linux.default_path(),
        "~/Documents/tschuba/ez-booth/booth.db"
    );
}

fn owned(booth: u128, tag: &'static str) -> OwnedRecord<&'static str> {
    OwnedRecord { booth_id: booth, data: tag }
}

#[test]
fn wizard_decisions_rewrite_full_backups() {
    let payload: ImportPayload<&str, &str, &str, &str> = ImportPayload::Full(FullBackup {
        booths: vec![
            BoothRecord { id: 1, data: "one" },
            BoothRecord { id: 2, data: "two" },
            BoothRecord { id: 3, data: "three" },
        ],
        vendors: vec![owned(1, "v1"), owned(2, "v2"), owned(3, "v3"), owned(9, "v9")],
        purchases: vec![owned(2, "p2"), owned(1, "p1")],
        other: "v3 backup",
    });
    let decisions = vec![(1u128, WizardChoice::UseCandidate(10)), (2u128, WizardChoice::Skip)];
    match apply_wizard_decisions_to_payload(payload, &decisions) {
        Some(ImportPayload::Full(data)) => {
            assert_eq!(data.other, "v3 backup");
            let ids: Vec<u128> = data.booths.iter().map(|b| b.id).collect();
            assert_eq!(ids, vec![10, 3]);
            let vendors: Vec<(u128, &str)> = data.vendors.iter().map(|v| (v.booth_id, v.data)).collect();
            assert_eq!(vendors, vec![(10, "v1"), (3, "v3"), (9, "v9")]);
            let purchases: Vec<(u128, &str)> = data.purchases.iter().map(|p| (p.booth_id, p.data)).collect();
            assert_eq!(purchases, vec![(10, "p1")]);
        }
        _ => panic!("expected a full backup"),
    }
}

#[test]
fn wizard_decisions_rewrite_booth_backups() {
    let make = || -> ImportPayload<&str, &str, &str, &str> {
        ImportPayload::Booth(BoothBackup {
            booth: BoothRecord { id: 5, data: "five" },
            vendors: vec![owned(5, "v"), owned(6, "w")],
            purchases: vec![owned(5, "p")],
            other: "device",
        })
    };
    assert!(apply_wizard_decisions_to_payload(make(), &vec![(5u128, WizardChoice::Skip)]).is_none());
    match apply_wizard_decisions_to_payload(make(), &vec![(6u128, WizardChoice::Skip)]) {
        Some(ImportPayload::Booth(data)) => assert_eq!((data.booth.id, data.vendors.len()), (5, 2)),
        _ => panic!("expected a booth backup"),
    }
    let advanced = WizardChoice::Advanced { canonical: 7, other: 8 };
    match apply_wizard_decisions_to_payload(make(), &vec![(5u128, advanced)]) {
        Some(ImportPayload::Booth(data)) => {
            assert_eq!(data.booth.id, 7);
            assert_eq!(data.other, "device");
            let vendors: Vec<u128> = data.vendors.iter().map(|v| v.booth_id).collect();
            assert_eq!(vendors, vec![7, 6]);
            assert_eq!(data.purchases[0].booth_id, 7);
        }
        _ => panic!("expected a booth backup"),
    }
    match apply_wizard_decisions_to_payload(make(), &vec![(5u128, WizardChoice::ImportAsNew)]) {
        Some(ImportPayload::Booth(data)) => assert_eq!(data.booth.id, 5),
        _ => panic!("expected a booth backup"),
    }
    match apply_wizard_decisions_to_payload(make(), &Vec::new()) {
        Some(ImportPayload::Booth(data)) => assert_eq!(data.vendors.len(), 2),
        _ => panic!("expected a booth backup"),
    }
}

#[test]
fn booth_selection_decisions() {
    let id = "67e55044-10b1-426f-9247-bb680e5fe0c8";
    let value = 0x67e5504410b1426f9247bb680e5fe0c8u128;
    assert_eq!(load_selected_booth_id(Some(id.to_string())), Some(value));
    assert_eq!(load_selected_booth_id(Some("not-a-uuid".to_string())), None);
    assert_eq!(load_selected_booth_id(None), None);
    assert_eq!(restore_action(BoothLookup::Found { archived: true }), SelectionAction::ClearAndBumpVersion);
    assert_eq!(restore_action(BoothLookup::Found { archived: false }), SelectionAction::Select);
    assert_eq!(restore_action(BoothLookup::Failed), SelectionAction::ClearStorage);
    assert_eq!(refresh_action(BoothLookup::Found { archived: true }, false), SelectionAction::Clear);
    assert_eq!(refresh_action(BoothLookup::Missing, true), SelectionAction::Clear);
    assert_eq!(refresh_action(BoothLookup::Failed, true), SelectionAction::Keep);
    assert!(auto_select_single_booth(1));
    assert!(!auto_select_single_booth(2));
    assert_eq!(bumped_version(4), 5);
    assert_eq!(initial_list_version(Some("12".to_string())), 12);
    assert_eq!(initial_list_version(Some("x".to_string())), 0);
    assert_eq!(sync_list_version(None, 3, true), (Some(3), false));
    assert_eq!(sync_list_version(Some(3), 3, true), (Some(3), false));
    assert_eq!(sync_list_version(Some(3), 4, true), (Some(4), true));
    assert_eq!(sync_list_version(Some(3), 4, false), (Some(4), false));
    assert_eq!(
        storage_change(Some("ez-vend-selected-booth-id".to_string()), None),
        (StorageChange::SelectionCleared, StorageChange::Ignored)
    );
    assert_eq!(
        storage_change(Some("ez-vend-selected-booth-id".to_string()), Some(id.to_string())),
        (StorageChange::SelectionChanged(value), StorageChange::Ignored)
    );
    assert_eq!(
        storage_change(Some("ez-vend-list-version".to_string()), Some("8".to_string())),
        (StorageChange::ListChanged, StorageChange::ListVersionSet(8))
    );
    assert_eq!(storage_change(None, None), (StorageChange::Ignored, StorageChange::Ignored));
}

#[test]
fn safari_is_recognised() {
    assert!(is_safari("Mozilla/5.0 (Macintosh) AppleWebKit/605.1.15 Version/17.0 Safari/605.1.15"));
    assert!(!is_safari("Mozilla/5.0 (Windows NT 10.0) AppleWebKit/537.36 Chrome/120.0 Safari/537.36"));
    assert!(!is_safari(""));
}

#[test]
fn booth_selector_lists_active_booths() {
    let booths = vec![(1u128, false), (2u128, true), (3u128, false), (4u128, true)];
    assert_eq!(selector_booths(&booths), (vec![1, 3], 2));
    assert_eq!(selector_booths(&vec![]), (vec![], 0));
    let t = Translations::from_entries(vec![(
        "booth".to_string(),
        JsonValue::Object(vec![
            ("selector_all_archived".to_string(), JsonValue::String("Alle archiviert".to_string())),
            (
                "selector_count_with_archived".to_string(),
                JsonValue::String("{active} aktiv, {archived} archiviert".to_string()),
            ),
            ("no_booths_found".to_string(), JsonValue::String("Keine Stände".to_string())),
            ("create_first_booth".to_string(), JsonValue::String("Lege einen an".to_string())),
        ]),
    )]);
    assert_eq!(
        selector_empty_texts(2, &t),
        ("Alle archiviert".to_string(), "0 aktiv, 2 archiviert".to_string())
    );
    assert_eq!(
        selector_empty_texts(0, &t),
        ("Keine Stände".to_string(), "Lege einen an".to_string())
    );
}

#[test]
fn arming_always_leaves_a_target_armed() {
    let mut c: TwoStepDeleteController<u32> = TwoStepDeleteController::new();
    c.arm(3);
    assert_eq!(c.signal(), &Some(3));
    c.arm(3);
    assert_eq!(c.signal(), &Some(3));
    c.arm(4);
    assert_eq!(c.signal(), &Some(4));
}
