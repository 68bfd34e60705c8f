//! Archiving a booth: the wizard's steps and the confirmation token the user
//! types to confirm.

use vstd::prelude::*;

use crate::text::{
    chars_eq, chars_of, is_ascii_alnum, is_ascii_alphanumeric, owned, string_of, to_ascii_uppercase,
    trim_str, trim_spec, upper_seq,
};

verus! {

/// Steps of the archive wizard, in order.
#[derive(Clone, Copy, Debug, PartialEq, Eq, Structural)]
pub enum ArchiveStep {
    Review,
    Export,
    Confirm,
    Done,
}

/// The ASCII letters and digits of `s`, in order.
pub open spec fn alnum_of(s: Seq<char>) -> Seq<char>
    decreases s.len(),
{
    if s.len() == 0 {
        s
    } else if is_ascii_alnum(s.last()) {
        alnum_of(s.drop_last()).push(s.last())
    } else {
        alnum_of(s.drop_last())
    }
}

/// The token for a booth id: the last four letters and digits of the id in
/// upper case, or `ARCHIVE` when the id has fewer than four.
pub open spec fn confirmation_token_spec(id: Seq<char>) -> Seq<char> {
    let a = alnum_of(id);
    if a.len() < 4 {
        "ARCHIVE"@
    } else {
        upper_seq(a.skip(a.len() - 4))
    }
}

/// The confirmation token for the booth with id `id`.
pub fn confirmation_token_from_id_str(id: &str) -> (r: String)
    ensures
        r@ == confirmation_token_spec(id@),
{
    let v = chars_of(id);
    let mut a: Vec<char> = Vec::new();
    let mut i: usize = 0;
    while i < v.len()
        invariant
            i <= v@.len(),
            v@ == id@,
            a@ == alnum_of(v@.take(i as int)),
        decreases v.len() - i,
    {
        assert(v@.take(i + 1).drop_last() =~= v@.take(i as int));
        if is_ascii_alphanumeric(v[i]) {
            a.push(v[i]);
        }
        i = i + 1;
    }
    assert(v@.take(v.len() as int) =~= v@);
    if a.len() < 4 {
        return owned("ARCHIVE");
    }
    let mut t: Vec<char> = Vec::new();
    let mut k = a.len() - 4;
    while k < a.len()
        invariant
            a.len() >= 4,
            a.len() - 4 <= k <= a.len(),
            a@ == alnum_of(id@),
            t@ == upper_seq(a@.subrange(a.len() - 4, k as int)),
        decreases a.len() - k,
    {
        t.push(to_ascii_uppercase(a[k]));
        k = k + 1;
        assert(t@ =~= upper_seq(a@.subrange(a.len() - 4, k as int)));
    }
    assert(a@.subrange(a.len() - 4, a.len() as int) =~= a@.skip(a.len() - 4));
    string_of(&t)
}

/// `str::to_uppercase` (Unicode upper case) of a string.
pub uninterp spec fn unicode_uppercase(s: Seq<char>) -> Seq<char>;

/// `str::to_uppercase`: the result is `unicode_uppercase` of the argument.
#[verifier::external_body]
fn to_uppercase(s: &str) -> (r: String)
    ensures
        r@ == unicode_uppercase(s@),
{
    s.to_uppercase()
}

/// Whether the text typed by the user confirms `token`: trimmed and upper-cased
/// it equals the token.
pub fn token_matches(input: &str, token: &str) -> (r: bool)
    ensures
        r == (unicode_uppercase(trim_spec(input@)) == token@),
{
    let t = trim_str(input);
    let trimmed = string_of(&t);
    let upper = to_uppercase(trimmed.as_str());
    token_equals(upper.as_str(), token)
}

/// Whether the typed text, already trimmed and upper-cased, is the token.
pub fn token_equals(normalized_input: &str, token: &str) -> (r: bool)
    ensures
        r == (normalized_input@ == token@),
{
    let u = chars_of(normalized_input);
    let k = chars_of(token);
    chars_eq(&u, &k)
}

/// What the archive wizard knows: its step, whether the preview and the
/// export are there, and whether it waits for the storage.
#[derive(Clone, Copy, Debug, PartialEq, Eq, Structural)]
pub struct ArchiveWizardState {
    pub step: ArchiveStep,
    pub preview_ready: bool,
    pub export_done: bool,
    pub busy: bool,
}

/// What happens in the archive wizard.
#[derive(Clone, Copy, Debug, PartialEq, Eq, Structural)]
pub enum ArchiveEvent {
    /// The wizard was opened.
    Opened,
    /// Loading the preview ended, successfully or not.
    PreviewLoaded { ok: bool },
    /// The user went on from the review.
    Proceed,
    /// The user asked for the export.
    ExportRequested,
    /// The export ended, successfully or not.
    ExportFinished { ok: bool },
    /// The user asked to archive; `token_confirmed` tells whether the typed
    /// token matches.
    ArchiveRequested { token_confirmed: bool },
    /// Archiving ended, successfully or not.
    ArchiveFinished { ok: bool },
    /// The wizard was closed.
    Closed,
}

/// What the wizard's caller does next.
#[derive(Clone, Copy, Debug, PartialEq, Eq, Structural)]
pub enum ArchiveAction {
    Nothing,
    /// Load the preview of the booth.
    LoadPreview,
    /// Report that the preview could not be loaded.
    ReportPreviewFailed,
    /// Export the booth and record the export.
    RunExport,
    /// Report the export and focus the token field.
    ReportExported,
    /// Report that the export failed.
    ReportExportFailed,
    /// Archive the booth with the recorded export.
    RunArchive,
    /// Report the archiving, reload the booth lists and mark the backup as done.
    ReportArchived,
    /// Report that archiving failed.
    ReportArchiveFailed,
    /// Clear the token and tell the owner that the wizard closed.
    Close,
}

/// The state a fresh wizard starts in: at the review, waiting for the preview.
pub open spec fn opened_state() -> ArchiveWizardState {
    ArchiveWizardState { step: ArchiveStep::Review, preview_ready: false, export_done: false, busy: true }
}

/// The wizard's next state and action for an event.
pub open spec fn archive_step_spec(s: ArchiveWizardState, e: ArchiveEvent) -> (ArchiveWizardState, ArchiveAction) {
    match e {
        ArchiveEvent::Opened => (opened_state(), ArchiveAction::LoadPreview),
        ArchiveEvent::PreviewLoaded { ok } => (
            ArchiveWizardState { preview_ready: ok, busy: false, ..s },
            if ok { ArchiveAction::Nothing } else { ArchiveAction::ReportPreviewFailed },
        ),
        ArchiveEvent::Proceed => if s.step == ArchiveStep::Review && s.preview_ready && !s.busy {
            (ArchiveWizardState { step: ArchiveStep::Export, ..s }, ArchiveAction::Nothing)
        } else {
            (s, ArchiveAction::Nothing)
        },
        ArchiveEvent::ExportRequested => if s.busy {
            (s, ArchiveAction::Nothing)
        } else {
            (ArchiveWizardState { busy: true, ..s }, ArchiveAction::RunExport)
        },
        ArchiveEvent::ExportFinished { ok } => if ok {
            (
                ArchiveWizardState { step: ArchiveStep::Confirm, export_done: true, busy: false, ..s },
                ArchiveAction::ReportExported,
            )
        } else {
            (ArchiveWizardState { busy: false, ..s }, ArchiveAction::ReportExportFailed)
        },
        ArchiveEvent::ArchiveRequested { token_confirmed } => if s.busy || !token_confirmed
            || !s.export_done {
            (s, ArchiveAction::Nothing)
        } else {
            (ArchiveWizardState { busy: true, ..s }, ArchiveAction::RunArchive)
        },
        ArchiveEvent::ArchiveFinished { ok } => if ok {
            (
                ArchiveWizardState { step: ArchiveStep::Done, busy: false, ..s },
                ArchiveAction::ReportArchived,
            )
        } else {
            (ArchiveWizardState { busy: false, ..s }, ArchiveAction::ReportArchiveFailed)
        },
        ArchiveEvent::Closed => (
            ArchiveWizardState {
                step: ArchiveStep::Review,
                preview_ready: false,
                export_done: false,
                ..s
            },
            ArchiveAction::Close,
        ),
    }
}

impl ArchiveWizardState {
    /// The state of a wizard that has not been opened.
    pub fn new() -> (r: ArchiveWizardState)
        ensures
            r == (ArchiveWizardState {
                step: ArchiveStep::Review,
                preview_ready: false,
                export_done: false,
                busy: false,
            }),
    {
        ArchiveWizardState {
            step: ArchiveStep::Review,
            preview_ready: false,
            export_done: false,
            busy: false,
        }
    }

    /// The wizard's next state and what its caller does next.
    pub fn handle(self, event: ArchiveEvent) -> (r: (ArchiveWizardState, ArchiveAction))
        ensures
            r == archive_step_spec(self, event),
    {
        match event {
            ArchiveEvent::Opened => (
                ArchiveWizardState {
                    step: ArchiveStep::Review,
                    preview_ready: false,
                    export_done: false,
                    busy: true,
                },
                ArchiveAction::LoadPreview,
            ),
            ArchiveEvent::PreviewLoaded { ok } => (
                ArchiveWizardState { preview_ready: ok, busy: false, ..self },
                if ok {
                    ArchiveAction::Nothing
                } else {
                    ArchiveAction::ReportPreviewFailed
                },
            ),
            ArchiveEvent::Proceed => {
                if self.step == ArchiveStep::Review && self.preview_ready && !self.busy {
                    (ArchiveWizardState { step: ArchiveStep::Export, ..self }, ArchiveAction::Nothing)
                } else {
                    (self, ArchiveAction::Nothing)
                }
            },
            ArchiveEvent::ExportRequested => {
                if self.busy {
                    (self, ArchiveAction::Nothing)
                } else {
                    (ArchiveWizardState { busy: true, ..self }, ArchiveAction::RunExport)
                }
            },
            ArchiveEvent::ExportFinished { ok } => {
                if ok {
                    (
                        ArchiveWizardState {
                            step: ArchiveStep::Confirm,
                            export_done: true,
                            busy: false,
                            ..self
                        },
                        ArchiveAction::ReportExported,
                    )
                } else {
                    (ArchiveWizardState { busy: false, ..self }, ArchiveAction::ReportExportFailed)
                }
            },
            ArchiveEvent::ArchiveRequested { token_confirmed } => {
                if self.busy || !token_confirmed || !self.export_done {
                    (self, ArchiveAction::Nothing)
                } else {
                    (ArchiveWizardState { busy: true, ..self }, ArchiveAction::RunArchive)
                }
            },
            ArchiveEvent::ArchiveFinished { ok } => {
                if ok {
                    (
                        ArchiveWizardState { step: ArchiveStep::Done, busy: false, ..self },
                        ArchiveAction::ReportArchived,
                    )
                } else {
                    (ArchiveWizardState { busy: false, ..self }, ArchiveAction::ReportArchiveFailed)
                }
            },
            ArchiveEvent::Closed => (
                ArchiveWizardState {
                    step: ArchiveStep::Review,
                    preview_ready: false,
                    export_done: false,
                    ..self
                },
                ArchiveAction::Close,
            ),
        }
    }
}

/// The translation key of a step's title.
pub fn step_title_key(step: ArchiveStep) -> (r: &'static str)
    ensures
        r@ == (match step {
            ArchiveStep::Review => "archive.review_title"@,
            ArchiveStep::Export => "archive.export_title"@,
            ArchiveStep::Confirm => "archive.confirm_title"@,
            ArchiveStep::Done => "archive.done_title"@,
        }),
{
    match step {
        ArchiveStep::Review => "archive.review_title",
        ArchiveStep::Export => "archive.export_title",
        ArchiveStep::Confirm => "archive.confirm_title",
        ArchiveStep::Done => "archive.done_title",
    }
}

/// A booth is archived only after an export: whatever happened before, the
/// wizard asks to archive only from a state whose export is done, and it
/// reaches the last step only by a successful archiving.
pub proof fn lemma_archive_needs_export(s: ArchiveWizardState, e: ArchiveEvent)
    ensures
        archive_step_spec(s, e).1 == ArchiveAction::RunArchive ==> s.export_done && !s.busy
            && e == (ArchiveEvent::ArchiveRequested { token_confirmed: true }),
        archive_step_spec(s, e).0.step == ArchiveStep::Done && s.step != ArchiveStep::Done ==> e
            == (ArchiveEvent::ArchiveFinished { ok: true }),
{
}

} // verus!
