use ez_vend::settings_page::{
    can_save_device_identifier, database_version_label, device_platform_info,
    device_validation_message, integrity_status_text, recent_error_count_text,
    toggle_error_details, ArchiveAuditEventType, IntegrityStatus,
};
use ez_vend::translations::{JsonValue, Translations};

fn settings_texts() -> Translations {
    let text = |k: &str, v: &str| (k.to_string(), JsonValue::String(v.to_string()));
    Translations::from_entries(vec![
        (
            "settings".to_string(),
            JsonValue::Object(vec![
                text("integrity_not_checked", "Noch nicht geprüft"),
                text("integrity_status_healthy", "In Ordnung"),
                text("integrity_status_issues_found", "{count} Probleme gefunden"),
                text("device_platform_info", "{platform} mit {browser}"),
                text("device_validation_error", "Ungültige Kennung"),
                text("error_log_recent_count_value", "{count} in 24 Stunden"),
                text("archive_history_event_archived", "Archiviert"),
                text("archive_history_event_restored", "Wiederhergestellt"),
            ]),
        ),
        ("common".to_string(), JsonValue::Object(vec![text("loading", "Lädt …")])),
    ])
}

#[test]
fn integrity_lines() {
    let t = settings_texts();
    assert_eq!(integrity_status_text(&None, &t), "Noch nicht geprüft");
    assert_eq!(integrity_status_text(&Some(IntegrityStatus::Healthy), &t), "In Ordnung");
    let issues = IntegrityStatus::IssuesFound { issues: vec!["a".to_string(), "b".to_string()] };
    assert_eq!(integrity_status_text(&Some(issues), &t), "2 Probleme gefunden");
}

#[test]
fn device_identifier_editor() {
    let t = settings_texts();
    assert_eq!(device_platform_info("macOS", "Safari", &t), "macOS mit Safari");
    assert_eq!(device_validation_message("marias-laptop", &t), None);
    assert_eq!(device_validation_message("a b", &t), Some("Ungültige Kennung".to_string()));
    assert_eq!(device_validation_message("ab", &t), Some("Ungültige Kennung".to_string()));
    assert!(can_save_device_identifier("kasse-2", "kasse-1", false));
    assert!(!can_save_device_identifier("kasse-1", "kasse-1", false));
    assert!(!can_save_device_identifier("kasse-2", "kasse-1", true));
}

#[test]
fn error_details_toggle() {
    let mut ids: Vec<u32> = vec![4, 9];
    toggle_error_details(&mut ids, 7);
    assert_eq!(ids, vec![4, 9, 7]);
    toggle_error_details(&mut ids, 7);
    assert_eq!(ids, vec![4, 9]);
    let mut repeated: Vec<u32> = vec![3, 1, 3];
    toggle_error_details(&mut repeated, 3);
    assert_eq!(repeated, vec![1]);
}

#[test]
fn labels() {
    let t = settings_texts();
    assert_eq!(database_version_label(Some(12)), "v12");
    assert_eq!(database_version_label(None), "-");
    assert_eq!(recent_error_count_text(true, 5, &t), "Lädt …");
    assert_eq!(recent_error_count_text(false, 5, &t), "5 in 24 Stunden");
    assert_eq!(ArchiveAuditEventType::Archived.label(&t), "Archiviert");
    assert_eq!(ArchiveAuditEventType::Restored.label(&t), "Wiederhergestellt");
}
