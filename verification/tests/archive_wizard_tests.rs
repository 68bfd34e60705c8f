use ez_vend::app_routes::{shows_import, view_title_key};
use ez_vend::archive::{
    step_title_key, token_equals, token_matches, ArchiveAction, ArchiveEvent, ArchiveStep,
    ArchiveWizardState,
};

#[test]
fn wizard_runs_through_its_steps() {
    let s = ArchiveWizardState::new();
    let (s, a) = s.handle(ArchiveEvent::Opened);
    assert_eq!(a, ArchiveAction::LoadPreview);
    assert!(s.busy);
    let (s2, a) = s.handle(ArchiveEvent::Proceed);
    assert_eq!((s2, a), (s, ArchiveAction::Nothing));
    let (s, a) = s.handle(ArchiveEvent::PreviewLoaded { ok: true });
    assert_eq!(a, ArchiveAction::Nothing);
    let (s, _) = s.handle(ArchiveEvent::Proceed);
    assert_eq!(s.step, ArchiveStep::Export);
    let (s2, a) = s.handle(ArchiveEvent::ArchiveRequested { token_confirmed: true });
    assert_eq!((s2, a), (s, ArchiveAction::Nothing));
    let (s, a) = s.handle(ArchiveEvent::ExportRequested);
    assert_eq!(a, ArchiveAction::RunExport);
    let (s2, a) = s.handle(ArchiveEvent::ExportRequested);
    assert_eq!((s2, a), (s, ArchiveAction::Nothing));
    let (s, a) = s.handle(ArchiveEvent::ExportFinished { ok: true });
    assert_eq!(a, ArchiveAction::ReportExported);
    assert_eq!(s.step, ArchiveStep::Confirm);
    let (s2, a) = s.handle(ArchiveEvent::ArchiveRequested { token_confirmed: false });
    assert_eq!((s2, a), (s, ArchiveAction::Nothing));
    let (s, a) = s.handle(ArchiveEvent::ArchiveRequested { token_confirmed: true });
    assert_eq!(a, ArchiveAction::RunArchive);
    let (s, a) = s.handle(ArchiveEvent::ArchiveFinished { ok: true });
    assert_eq!(a, ArchiveAction::ReportArchived);
    assert_eq!(s.step, ArchiveStep::Done);
    let (s, a) = s.handle(ArchiveEvent::Closed);
    assert_eq!(a, ArchiveAction::Close);
    assert_eq!(s.step, ArchiveStep::Review);
    assert!(!s.export_done);
}

#[test]
fn wizard_reports_failures() {
    let (s, _) = ArchiveWizardState::new().handle(ArchiveEvent::Opened);
    let (s, a) = s.handle(ArchiveEvent::PreviewLoaded { ok: false });
    assert_eq!(a, ArchiveAction::ReportPreviewFailed);
    assert!(!s.preview_ready);
    let (s2, _) = s.handle(ArchiveEvent::Proceed);
    assert_eq!(s2.step, ArchiveStep::Review);
    let (s, _) = s.handle(ArchiveEvent::ExportRequested);
    let (s, a) = s.handle(ArchiveEvent::ExportFinished { ok: false });
    assert_eq!(a, ArchiveAction::ReportExportFailed);
    assert!(!s.export_done && !s.busy);
    let failing = ArchiveWizardState { step: ArchiveStep::Confirm, preview_ready: true, export_done: true, busy: true };
    let (s, a) = failing.handle(ArchiveEvent::ArchiveFinished { ok: false });
    assert_eq!(a, ArchiveAction::ReportArchiveFailed);
    assert_eq!(s.step, ArchiveStep::Confirm);
}

#[test]
fn step_titles_and_tokens() {
    assert_eq!(step_title_key(ArchiveStep::Review), "archive.review_title");
    assert_eq!(step_title_key(ArchiveStep::Done), "archive.done_title");
    assert!(token_equals("77DE", "77DE"));
    assert!(!token_equals("77de", "77DE"));
    assert!(token_matches(" ärger ", "ÄRGER"));
}

#[test]
fn header_titles_follow_the_route() {
    assert_eq!(view_title_key("/booths", ""), Some("booth.list_title"));
    assert_eq!(view_title_key("/app/vendors", "/app"), Some("vendor.list_title"));
    assert_eq!(view_title_key("/app/settings", "/app"), Some("settings.title"));
    assert_eq!(view_title_key("/checkout", "/app"), Some("checkout.title"));
    assert_eq!(view_title_key("/app/", "/app"), None);
    assert_eq!(view_title_key("/other/booths", "/app"), None);
    assert!(shows_import("/app/booths", "/app"));
    assert!(!shows_import("/app/vendors", "/app"));
    assert!(shows_import("/booths", ""));
}
