use ez_vend::import_plan::{
    BoothBackup, BoothRecord, FullBackup, ImportPayload, OwnedRecord, WizardChoice,
};
use ez_vend::import_review::{
    advanced_merges, conflict_strategy_from_value, format_import_error, import_outcome,
    needs_wizard, parse_import_data, ready_imports, AnalysisState, ConflictStrategy,
    ImportCandidate, ImportError, ImportOutcome, ImportPreview, ImportRun, ImportRunAction,
    ImportRunEvent, ImportRunPhase, ImportSummary,
};
use ez_vend::translations::{JsonValue, Translations};

type Payload = ImportPayload<&'static str, &'static str, &'static str, &'static str>;

fn backup_texts() -> Translations {
    Translations::from_entries(vec![(
        "backup".to_string(),
        JsonValue::Object(vec![
            (
                "import_version_error".to_string(),
                JsonValue::String("Version {found} wird nicht unterstützt (max. {supported})".to_string()),
            ),
            (
                "checksum_failed".to_string(),
                JsonValue::String("Prüfsumme falsch: {detail}".to_string()),
            ),
            (
                "checksum_mismatch_detail".to_string(),
                JsonValue::String("erwartet {expected}, erhalten {actual}".to_string()),
            ),
            (
                "import_apply_success".to_string(),
                JsonValue::String(
                    "{booths} Stände, {vendors} Verkäufer, {purchases} Käufe, {resolved} Konflikte, {skipped} übersprungen"
                        .to_string(),
                ),
            ),
            (
                "import_partial_success".to_string(),
                JsonValue::String("{success} ok, {failed} fehlgeschlagen".to_string()),
            ),
        ]),
    )])
}

fn booth_backup(id: u128) -> BoothBackup<&'static str, &'static str, &'static str, &'static str> {
    BoothBackup {
        booth: BoothRecord { id, data: "booth" },
        vendors: vec![OwnedRecord { booth_id: id, data: "v1" }, OwnedRecord { booth_id: id, data: "v2" }],
        purchases: vec![OwnedRecord { booth_id: id, data: "p1" }],
        other: "backup",
    }
}

fn candidate(name: &str, payload: Option<Payload>, analysis: AnalysisState) -> ImportCandidate<&'static str, &'static str, &'static str, &'static str> {
    ImportCandidate {
        file_name: name.to_string(),
        preview: payload.as_ref().map(|_| ImportPreview::Full { booths: 0, vendors: 0, purchases: 0 }),
        parsed_data: payload,
        validation_failures: Vec::new(),
        structure_error: None,
        analysis,
    }
}

#[test]
fn conflict_strategies() {
    assert_eq!(conflict_strategy_from_value("skip"), ConflictStrategy::Skip);
    assert_eq!(conflict_strategy_from_value("replace"), ConflictStrategy::Replace);
    assert_eq!(conflict_strategy_from_value("merge"), ConflictStrategy::Merge);
    assert_eq!(conflict_strategy_from_value("Skip"), ConflictStrategy::Merge);
}

#[test]
fn previews_count_records() {
    let data = booth_backup(7);
    assert_eq!(
        ImportPreview::of_booth_backup("Frühjahr".to_string(), &data),
        ImportPreview::Booth { description: "Frühjahr".to_string(), vendors: 2, purchases: 1 }
    );
    let full: FullBackup<&str, &str, &str, &str> = FullBackup {
        booths: vec![BoothRecord { id: 1, data: "a" }, BoothRecord { id: 2, data: "b" }],
        vendors: vec![],
        purchases: vec![OwnedRecord { booth_id: 1, data: "p" }],
        other: "backup",
    };
    assert_eq!(
        ImportPreview::of_full_backup(&full),
        ImportPreview::Full { booths: 2, vendors: 0, purchases: 1 }
    );
}

#[test]
fn full_backup_reading_is_used_only_for_shape_errors() {
    let r: Result<u8, ImportError> = parse_import_data(Ok(1), Ok(2));
    assert!(matches!(r, Ok(1)));
    let r: Result<u8, ImportError> =
        parse_import_data(Err(ImportError::InvalidStructure("no booth".to_string())), Ok(2));
    assert!(matches!(r, Ok(2)));
    let r: Result<u8, ImportError> =
        parse_import_data(Err(ImportError::InvalidJson("bad".to_string())), Err(ImportError::Other("x".to_string())));
    assert!(matches!(r, Err(ImportError::Other(m)) if m == "x"));
    let r: Result<u8, ImportError> = parse_import_data(
        Err(ImportError::ChecksumMismatch { expected: "a".to_string(), actual: "b".to_string() }),
        Ok(2),
    );
    assert!(matches!(r, Err(ImportError::ChecksumMismatch { .. })));
}

#[test]
fn import_errors_are_described() {
    let t = backup_texts();
    assert_eq!(
        format_import_error(&ImportError::UnsupportedVersion { found: 9, supported: 3 }, &t),
        "Version 9 wird nicht unterstützt (max. 3)"
    );
    assert_eq!(
        format_import_error(
            &ImportError::ChecksumMismatch { expected: "abc".to_string(), actual: "def".to_string() },
            &t
        ),
        "Prüfsumme falsch: erwartet abc, erhalten def"
    );
    assert_eq!(
        format_import_error(
            &ImportError::OrphanedRecords { details: vec!["one".to_string(), "two".to_string()] },
            &t
        ),
        "one\ntwo"
    );
    assert_eq!(format_import_error(&ImportError::InvalidJson("eof".to_string()), &t), "eof");
    assert_eq!(format_import_error(&ImportError::InvalidStructure("shape".to_string()), &t), "shape");
    assert_eq!(format_import_error(&ImportError::Other("disk".to_string()), &t), "disk");
}

#[test]
fn candidates_from_read_outcomes() {
    let t = backup_texts();
    let ok: ImportCandidate<&str, &str, &str, &str> = ImportCandidate::from_outcome(
        "a.json".to_string(),
        Ok(Ok((ImportPreview::Full { booths: 1, vendors: 0, purchases: 0 }, ImportPayload::Booth(booth_backup(1))))),
        &t,
    );
    assert!(ok.is_ready());
    assert_eq!(ok.file_name, "a.json");
    let failed: ImportCandidate<&str, &str, &str, &str> = ImportCandidate::from_outcome(
        "b.json".to_string(),
        Ok(Err(ImportError::ValidationFailed {
            failures: vec!["vendor without booth".to_string()],
            message: "validation failed".to_string(),
        })),
        &t,
    );
    assert!(!failed.is_ready());
    assert_eq!(failed.validation_failures, vec!["vendor without booth".to_string()]);
    assert_eq!(failed.structure_error, None);
    let broken: ImportCandidate<&str, &str, &str, &str> = ImportCandidate::from_outcome(
        "c.json".to_string(),
        Ok(Err(ImportError::UnsupportedVersion { found: 4, supported: 2 })),
        &t,
    );
    assert_eq!(broken.structure_error, Some("Version 4 wird nicht unterstützt (max. 2)".to_string()));
    let unread: ImportCandidate<&str, &str, &str, &str> =
        ImportCandidate::from_outcome("d.json".to_string(), Err("cannot read".to_string()), &t);
    assert_eq!(unread.structure_error, Some("cannot read".to_string()));
    assert_eq!(unread.analysis, AnalysisState::Pending);
}

#[test]
fn wizard_is_needed_for_ambiguous_files() {
    let quiet = vec![
        candidate("a", None, AnalysisState::Pending),
        candidate("b", None, AnalysisState::Available { has_ambiguous: false }),
        candidate("c", None, AnalysisState::Failed("x".to_string())),
    ];
    assert!(!needs_wizard(&quiet));
    let ambiguous = vec![
        candidate("a", None, AnalysisState::Pending),
        candidate("b", None, AnalysisState::Available { has_ambiguous: true }),
    ];
    assert!(needs_wizard(&ambiguous));
}

#[test]
fn advanced_merges_follow_decisions() {
    let decisions = vec![
        (1u128, WizardChoice::Advanced { canonical: 10, other: 11 }),
        (2u128, WizardChoice::Skip),
        (3u128, WizardChoice::Advanced { canonical: 30, other: 31 }),
        (1u128, WizardChoice::Advanced { canonical: 99, other: 98 }),
    ];
    assert_eq!(advanced_merges(&decisions), vec![(10, 11), (30, 31)]);
    assert_eq!(advanced_merges(&vec![]), vec![]);
}

#[test]
fn ready_files_get_the_decisions_applied() {
    let candidates = vec![
        candidate("skip.json", Some(ImportPayload::Booth(booth_backup(1))), AnalysisState::Pending),
        candidate("broken.json", None, AnalysisState::Pending),
        candidate("merge.json", Some(ImportPayload::Booth(booth_backup(2))), AnalysisState::Pending),
    ];
    let decisions = vec![(1u128, WizardChoice::Skip), (2u128, WizardChoice::UseCandidate(20))];
    let ready = ready_imports(candidates, &decisions);
    assert_eq!(ready.len(), 1);
    assert_eq!(ready[0].0, "merge.json");
    match &ready[0].1 {
        ImportPayload::Booth(b) => {
            assert_eq!(b.booth.id, 20);
            assert!(b.vendors.iter().all(|v| v.booth_id == 20));
            assert_eq!(b.purchases[0].booth_id, 20);
        }
        _ => panic!("expected a booth backup"),
    }
}

#[test]
fn import_summaries_and_outcomes() {
    let t = backup_texts();
    let mut total = ImportSummary::empty();
    assert!(!total.changed_anything());
    total.absorb(&ImportSummary {
        booths_imported: 1,
        vendors_imported: 4,
        purchases_imported: 10,
        conflicts_resolved: 0,
        skipped_records: 2,
    });
    total.absorb(&ImportSummary {
        booths_imported: 0,
        vendors_imported: 1,
        purchases_imported: 0,
        conflicts_resolved: 3,
        skipped_records: 0,
    });
    assert_eq!(total.vendors_imported, 5);
    assert!(total.changed_anything());
    assert_eq!(
        import_outcome(&total, 2, 0, &t),
        ImportOutcome::Success("1 Stände, 5 Verkäufer, 10 Käufe, 3 Konflikte, 2 übersprungen".to_string())
    );
    assert_eq!(
        import_outcome(&total, 1, 2, &t),
        ImportOutcome::PartialFailure("1 ok, 2 fehlgeschlagen".to_string())
    );
    let conflicts_only = ImportSummary { conflicts_resolved: 1, ..ImportSummary::empty() };
    assert!(conflicts_only.changed_anything());
}

fn empty_booth_backup() -> BoothBackup<&'static str, &'static str, &'static str, &'static str> {
    BoothBackup {
        booth: BoothRecord { id: 42, data: "Spring Market 2026" },
        vendors: vec![],
        purchases: vec![],
        other: "backup",
    }
}

#[test]
fn booth_backup_with_empty_lists_is_detected_as_booth_backup() {
    let data = empty_booth_backup();
    let preview = ImportPreview::of_booth_backup("Spring Market 2026".to_string(), &data);
    let booth_reading: Result<(ImportPreview, Payload), ImportError> = Ok((preview, ImportPayload::Booth(data)));
    let full_reading: Result<(ImportPreview, Payload), ImportError> =
        Err(ImportError::InvalidStructure("missing field `booths`".to_string()));
    match parse_import_data(booth_reading, full_reading) {
        Ok((ImportPreview::Booth { description, vendors, purchases }, ImportPayload::Booth(data))) => {
            assert_eq!(description, "Spring Market 2026");
            assert_eq!(vendors, 0);
            assert_eq!(purchases, 0);
            assert_eq!(data.booth.id, 42);
        }
        other => panic!("expected booth backup parse result, got {other:?}"),
    }
}

#[test]
fn full_backup_with_empty_lists_is_detected_as_full_backup() {
    let data: FullBackup<&str, &str, &str, &str> = FullBackup {
        booths: vec![BoothRecord { id: 42, data: "Spring Market 2026" }],
        vendors: Vec::new(),
        purchases: Vec::new(),
        other: "backup",
    };
    let preview = ImportPreview::of_full_backup(&data);
    let booth_reading: Result<(ImportPreview, Payload), ImportError> =
        Err(ImportError::InvalidStructure("missing field `booth`".to_string()));
    let full_reading: Result<(ImportPreview, Payload), ImportError> = Ok((preview, ImportPayload::Full(data)));
    match parse_import_data(booth_reading, full_reading) {
        Ok((ImportPreview::Full { booths, vendors, purchases }, ImportPayload::Full(data))) => {
            assert_eq!(booths, 1);
            assert_eq!(vendors, 0);
            assert_eq!(purchases, 0);
            assert_eq!(data.booths[0].id, 42);
        }
        other => panic!("expected full backup parse result, got {other:?}"),
    }
}

#[test]
fn booth_backup_checksum_mismatch_is_reported_without_fallback() {
    let booth_reading: Result<(ImportPreview, Payload), ImportError> = Err(ImportError::ChecksumMismatch {
        expected: "wrong".to_string(),
        actual: "a1b2".to_string(),
    });
    let data: FullBackup<&str, &str, &str, &str> = FullBackup { booths: vec![], vendors: vec![], purchases: vec![], other: "backup" };
    let preview = ImportPreview::of_full_backup(&data);
    let full_reading: Result<(ImportPreview, Payload), ImportError> = Ok((preview, ImportPayload::Full(data)));
    let error = parse_import_data(booth_reading, full_reading).unwrap_err();
    assert!(matches!(error, ImportError::ChecksumMismatch { .. }));
}

#[test]
fn import_runs_merge_first_and_report_each_file() {
    let run = ImportRun::new(2, 3);
    let (run, a) = run.handle(ImportRunEvent::Start);
    assert_eq!(a, ImportRunAction::RunMerge(0));
    let (run2, a) = run.handle(ImportRunEvent::FileFinished { ok: true });
    assert_eq!((run2, a), (run, ImportRunAction::Nothing));
    let (run, a) = run.handle(ImportRunEvent::MergeFinished { ok: true });
    assert_eq!(a, ImportRunAction::RunMerge(1));
    let (run, a) = run.handle(ImportRunEvent::MergeFinished { ok: true });
    assert_eq!(a, ImportRunAction::ImportFile(0));
    let (run, a) = run.handle(ImportRunEvent::FileFinished { ok: true });
    assert_eq!(a, ImportRunAction::ImportFile(1));
    let (run, a) = run.handle(ImportRunEvent::FileFinished { ok: false });
    assert_eq!(a, ImportRunAction::ImportFile(2));
    let (run, a) = run.handle(ImportRunEvent::FileFinished { ok: true });
    assert_eq!(a, ImportRunAction::Finish { close_dialog: false });
    assert_eq!((run.succeeded, run.failed, run.phase), (2, 1, ImportRunPhase::Finished));

    let (run, _) = ImportRun::new(1, 2).handle(ImportRunEvent::Start);
    let (run, a) = run.handle(ImportRunEvent::MergeFinished { ok: false });
    assert_eq!(a, ImportRunAction::ReportMergeFailed);
    assert_eq!(run.phase, ImportRunPhase::Aborted);
    let (run2, a) = run.handle(ImportRunEvent::FileFinished { ok: true });
    assert_eq!((run2, a), (run, ImportRunAction::Nothing));

    let (run, a) = ImportRun::new(0, 1).handle(ImportRunEvent::Start);
    assert_eq!(a, ImportRunAction::ImportFile(0));
    let (_, a) = run.handle(ImportRunEvent::FileFinished { ok: true });
    assert_eq!(a, ImportRunAction::Finish { close_dialog: true });

    let idle = ImportRun::new(3, 0);
    assert_eq!(idle.handle(ImportRunEvent::Start), (idle, ImportRunAction::Nothing));
}
