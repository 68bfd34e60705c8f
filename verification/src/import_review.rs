//! Reviewing backup files before they are imported: which kind of backup a
//! file holds, what the operator is shown of it, which files are ready, and
//! what is reported once the import has run.

use vstd::prelude::*;

use crate::import_plan::{
    apply_wizard_decisions_to_payload, applied_to, skips_payload, BoothBackup, FullBackup,
    ImportPayload, WizardChoice,
};
use crate::text::{
    decimal_chars, decimal_text, join_spec, join_strings, replace_spec, replace_str, string_of,
    string_views,
};
use crate::translations::{lookup_text, JsonValue, Translations};

verus! {

/// How records that already exist are treated by an import.
#[derive(Clone, Copy, Debug, PartialEq, Eq, Structural)]
pub enum ConflictStrategy {
    /// Keep the existing record.
    Skip,
    /// Overwrite the existing record.
    Replace,
    /// Combine both.
    Merge,
}

pub open spec fn conflict_strategy_spec(value: Seq<char>) -> ConflictStrategy {
    if value == "skip"@ {
        ConflictStrategy::Skip
    } else if value == "replace"@ {
        ConflictStrategy::Replace
    } else {
        ConflictStrategy::Merge
    }
}

/// The strategy picked in the strategy selector; anything unknown merges.
pub fn conflict_strategy_from_value(value: &str) -> (r: ConflictStrategy)
    ensures
        r == conflict_strategy_spec(value@),
{
    let v = crate::text::chars_of(value);
    if crate::text::chars_eq_str(&v, "skip") {
        ConflictStrategy::Skip
    } else if crate::text::chars_eq_str(&v, "replace") {
        ConflictStrategy::Replace
    } else {
        ConflictStrategy::Merge
    }
}

/// What the operator is shown of a file before importing it.
#[derive(Debug, PartialEq, Eq)]
pub enum ImportPreview {
    Full { booths: usize, vendors: usize, purchases: usize },
    Booth { description: String, vendors: usize, purchases: usize },
}

impl ImportPreview {
    /// The preview of a backup of everything: how many records of each kind.
    pub fn of_full_backup<B, V, P, M>(data: &FullBackup<B, V, P, M>) -> (r: ImportPreview)
        ensures
            r == (ImportPreview::Full {
                booths: data.booths@.len() as usize,
                vendors: data.vendors@.len() as usize,
                purchases: data.purchases@.len() as usize,
            }),
    {
        ImportPreview::Full {
            booths: data.booths.len(),
            vendors: data.vendors.len(),
            purchases: data.purchases.len(),
        }
    }

    /// The preview of a backup of one booth: its description and how many
    /// vendors and purchases it holds.
    pub fn of_booth_backup<B, V, P, M>(description: String, data: &BoothBackup<B, V, P, M>) -> (r:
        ImportPreview)
        ensures
            r == (ImportPreview::Booth {
                description,
                vendors: data.vendors@.len() as usize,
                purchases: data.purchases@.len() as usize,
            }),
    {
        ImportPreview::Booth {
            description,
            vendors: data.vendors.len(),
            purchases: data.purchases.len(),
        }
    }
}

/// Why a backup file cannot be imported.
#[derive(Debug)]
pub enum ImportError {
    /// The file is not JSON.
    InvalidJson(String),
    /// The JSON does not have the shape of this kind of backup.
    InvalidStructure(String),
    /// The backup was written by a version this one cannot read.
    UnsupportedVersion { found: u32, supported: u32 },
    /// The checksum stored in the backup does not match its contents.
    ChecksumMismatch { expected: String, actual: String },
    /// Records refer to records that the backup lacks.
    OrphanedRecords { details: Vec<String> },
    /// Records break the rules of the data model; `message` is the error's own text.
    ValidationFailed { failures: Vec<String>, message: String },
    /// Any other failure, with its message.
    Other(String),
}

/// Whether a failure to read a file as a one-booth backup means that the file
/// may still be a backup of everything: only when it is not such a backup in
/// shape. A file that has the shape keeps its own error.
pub open spec fn tries_full_backup(e: ImportError) -> bool {
    e is InvalidJson || e is InvalidStructure
}

/// Which reading of a file counts: the one-booth reading when it succeeds or
/// fails for a reason other than the file's shape, else the reading as a
/// backup of everything.
pub fn parse_import_data<T>(booth_reading: Result<T, ImportError>, full_reading: Result<
    T,
    ImportError,
>) -> (r: Result<T, ImportError>)
    ensures
        r == (match booth_reading {
            Err(e) => if tries_full_backup(e) {
                full_reading
            } else {
                booth_reading
            },
            Ok(_) => booth_reading,
        }),
{
    match booth_reading {
        Ok(value) => Ok(value),
        Err(ImportError::InvalidJson(_)) => full_reading,
        Err(ImportError::InvalidStructure(_)) => full_reading,
        Err(other) => Err(other),
    }
}

/// What is known of a file's effect on the stored data.
#[derive(Debug, PartialEq, Eq)]
pub enum AnalysisState {
    /// Not analysed yet.
    Pending,
    /// Analysed; `has_ambiguous` tells whether a booth of the file matches
    /// stored booths in more than one way.
    Available { has_ambiguous: bool },
    /// The analysis failed with this message.
    Failed(String),
}

/// A file picked for import, as it was read.
#[derive(Debug)]
pub struct ImportCandidate<B, V, P, M> {
    pub file_name: String,
    pub preview: Option<ImportPreview>,
    pub parsed_data: Option<ImportPayload<B, V, P, M>>,
    pub validation_failures: Vec<String>,
    pub structure_error: Option<String>,
    pub analysis: AnalysisState,
}

impl<B, V, P, M> ImportCandidate<B, V, P, M> {
    /// A file is ready when it was read and understood.
    pub fn is_ready(&self) -> (r: bool)
        ensures
            r == (self.preview is Some && self.parsed_data is Some),
    {
        self.preview.is_some() && self.parsed_data.is_some()
    }
}

/// Whether any analysed file needs the operator to decide between booths.
pub open spec fn needs_wizard_spec<B, V, P, M>(candidates: Seq<ImportCandidate<B, V, P, M>>) -> bool {
    exists|i: int|
        0 <= i < candidates.len() && (#[trigger] candidates[i]).analysis == (AnalysisState::Available {
            has_ambiguous: true,
        })
}

/// Whether the import wizard is needed: some analysed file is ambiguous.
pub fn needs_wizard<B, V, P, M>(candidates: &Vec<ImportCandidate<B, V, P, M>>) -> (r: bool)
    ensures
        r == needs_wizard_spec(candidates@),
{
    let mut i: usize = 0;
    while i < candidates.len()
        invariant
            i <= candidates@.len(),
            forall|k: int|
                0 <= k < i ==> (#[trigger] candidates@[k]).analysis != (AnalysisState::Available {
                    has_ambiguous: true,
                }),
        decreases candidates.len() - i,
    {
        match &candidates[i].analysis {
            AnalysisState::Available { has_ambiguous } => {
                if *has_ambiguous {
                    assert(candidates@[i as int].analysis == (AnalysisState::Available {
                        has_ambiguous: true,
                    }));
                    return true;
                }
            },
            _ => {},
        }
        i = i + 1;
    }
    false
}

/// Whether the decision at `i` is the one in effect for its booth: no
/// earlier decision names the same booth.
pub open spec fn first_for_booth(decisions: Seq<(u128, WizardChoice)>, i: int) -> bool {
    forall|j: int| 0 <= j < i ==> (#[trigger] decisions[j]).0 != decisions[i].0
}

/// The merges to run before importing: for each booth decided "advanced",
/// its canonical booth and the other booth, in the order of the decisions.
pub open spec fn advanced_merges_spec(decisions: Seq<(u128, WizardChoice)>) -> Seq<(u128, u128)>
    decreases decisions.len(),
{
    if decisions.len() == 0 {
        Seq::empty()
    } else {
        let before = advanced_merges_spec(decisions.drop_last());
        let i = decisions.len() - 1;
        match decisions[i].1 {
            WizardChoice::Advanced { canonical, other } => if first_for_booth(decisions, i) {
                before.push((canonical, other))
            } else {
                before
            },
            _ => before,
        }
    }
}

/// The merges that the "advanced" decisions ask for, one per booth.
pub fn advanced_merges(decisions: &Vec<(u128, WizardChoice)>) -> (r: Vec<(u128, u128)>)
    ensures
        r@ == advanced_merges_spec(decisions@),
{
    let mut out: Vec<(u128, u128)> = Vec::new();
    let mut i: usize = 0;
    while i < decisions.len()
        invariant
            i <= decisions@.len(),
            out@ == advanced_merges_spec(decisions@.take(i as int)),
        decreases decisions.len() - i,
    {
        let mut first = true;
        let mut j: usize = 0;
        while j < i
            invariant
                j <= i < decisions@.len(),
                first == (forall|k: int| 0 <= k < j ==> (#[trigger] decisions@[k]).0 != decisions@[i as int].0),
            decreases i - j,
        {
            if decisions[j].0 == decisions[i].0 {
                first = false;
            }
            j = j + 1;
        }
        let ghost taken = decisions@.take(i + 1);
        assert(taken.drop_last() =~= decisions@.take(i as int));
        assert(first == first_for_booth(taken, i as int)) by {
            assert(taken[i as int] == decisions@[i as int]);
            if first {
                assert forall|k: int| 0 <= k < i implies (#[trigger] taken[k]).0 != taken[i as int].0 by {
                    assert(taken[k] == decisions@[k]);
                }
            } else {
                let k = choose|k: int| 0 <= k < i && !((#[trigger] decisions@[k]).0 != decisions@[i as int].0);
                assert(taken[k] == decisions@[k]);
            }
        }
        match decisions[i].1 {
            WizardChoice::Advanced { canonical, other } => {
                if first {
                    out.push((canonical, other));
                }
            },
            _ => {},
        }
        i = i + 1;
    }
    assert(decisions@.take(decisions@.len() as int) =~= decisions@);
    out
}

/// The message shown for a file that could not be read as a backup.
pub open spec fn import_error_text(e: ImportError, entries: Seq<(String, JsonValue)>) -> Seq<
    char,
> {
    match e {
        ImportError::UnsupportedVersion { found, supported } => replace_spec(
            replace_spec(
                lookup_text(entries, "backup.import_version_error"@),
                "{found}"@,
                decimal_text(found as nat),
            ),
            "{supported}"@,
            decimal_text(supported as nat),
        ),
        ImportError::OrphanedRecords { details } => join_spec(string_views(details@), '\n'),
        ImportError::InvalidStructure(message) => message@,
        ImportError::InvalidJson(message) => message@,
        ImportError::ChecksumMismatch { expected, actual } => replace_spec(
            lookup_text(entries, "backup.checksum_failed"@),
            "{detail}"@,
            replace_spec(
                replace_spec(
                    lookup_text(entries, "backup.checksum_mismatch_detail"@),
                    "{expected}"@,
                    expected@,
                ),
                "{actual}"@,
                actual@,
            ),
        ),
        ImportError::ValidationFailed { message, .. } => message@,
        ImportError::Other(message) => message@,
    }
}

/// The message for a file that could not be read as a backup, in the
/// language of `translations`.
pub fn format_import_error(error: &ImportError, translations: &Translations) -> (r: String)
    ensures
        r@ == import_error_text(*error, translations.entries()),
{
    proof {
        reveal_strlit("{found}");
        reveal_strlit("{supported}");
        reveal_strlit("{detail}");
        reveal_strlit("{expected}");
        reveal_strlit("{actual}");
    }
    match error {
        ImportError::UnsupportedVersion { found, supported } => {
            let template = translations.get("backup.import_version_error");
            let found_text = string_of(&decimal_chars(*found as u64));
            let supported_text = string_of(&decimal_chars(*supported as u64));
            let a = replace_str(template.as_str(), "{found}", found_text.as_str());
            replace_str(a.as_str(), "{supported}", supported_text.as_str())
        },
        ImportError::OrphanedRecords { details } => join_strings(details, '\n'),
        ImportError::InvalidStructure(message) => message.clone(),
        ImportError::InvalidJson(message) => message.clone(),
        ImportError::ChecksumMismatch { expected, actual } => {
            let detail_template = translations.get("backup.checksum_mismatch_detail");
            let d = replace_str(detail_template.as_str(), "{expected}", expected.as_str());
            let detail = replace_str(d.as_str(), "{actual}", actual.as_str());
            let template = translations.get("backup.checksum_failed");
            replace_str(template.as_str(), "{detail}", detail.as_str())
        },
        ImportError::ValidationFailed { message, .. } => message.clone(),
        ImportError::Other(message) => message.clone(),
    }
}

impl<B, V, P, M> ImportCandidate<B, V, P, M> {
    /// The candidate for a file named `file_name`: `outcome` is the file's
    /// text failing to load (its message), or the reading of that text.
    pub fn from_outcome(
        file_name: String,
        outcome: Result<Result<(ImportPreview, ImportPayload<B, V, P, M>), ImportError>, String>,
        translations: &Translations,
    ) -> (r: ImportCandidate<B, V, P, M>)
        ensures
            r.file_name == file_name,
            r.analysis == AnalysisState::Pending,
            match outcome {
                Ok(Ok((preview, data))) => r.preview == Some(preview) && r.parsed_data == Some(data)
                    && r.validation_failures@.len() == 0 && r.structure_error is None,
                Ok(Err(ImportError::ValidationFailed { failures, .. })) => r.preview is None
                    && r.parsed_data is None && r.validation_failures == failures
                    && r.structure_error is None,
                Ok(Err(e)) => r.preview is None && r.parsed_data is None
                    && r.validation_failures@.len() == 0 && (r.structure_error matches Some(m)
                    && m@ == import_error_text(e, translations.entries())),
                Err(message) => r.preview is None && r.parsed_data is None
                    && r.validation_failures@.len() == 0 && r.structure_error == Some(message),
            },
    {
        match outcome {
            Ok(Ok((preview, data))) => ImportCandidate {
                file_name,
                preview: Some(preview),
                parsed_data: Some(data),
                validation_failures: Vec::new(),
                structure_error: None,
                analysis: AnalysisState::Pending,
            },
            Ok(Err(ImportError::ValidationFailed { failures, message })) => ImportCandidate {
                file_name,
                preview: None,
                parsed_data: None,
                validation_failures: failures,
                structure_error: None,
                analysis: AnalysisState::Pending,
            },
            Ok(Err(other)) => {
                let text = format_import_error(&other, translations);
                ImportCandidate {
                    file_name,
                    preview: None,
                    parsed_data: None,
                    validation_failures: Vec::new(),
                    structure_error: Some(text),
                    analysis: AnalysisState::Pending,
                }
            },
            Err(message) => ImportCandidate {
                file_name,
                preview: None,
                parsed_data: None,
                validation_failures: Vec::new(),
                structure_error: Some(message),
                analysis: AnalysisState::Pending,
            },
        }
    }
}

/// Whether a file is imported: it was read and understood, and the
/// decisions leave something of it to import.
pub open spec fn to_import<B, V, P, M>(
    c: ImportCandidate<B, V, P, M>,
    decisions: Seq<(u128, WizardChoice)>,
) -> bool {
    c.parsed_data matches Some(p) && !skips_payload(p, decisions)
}

/// The files to import, in order.
pub open spec fn ready_of<B, V, P, M>(
    c: Seq<ImportCandidate<B, V, P, M>>,
    decisions: Seq<(u128, WizardChoice)>,
) -> Seq<ImportCandidate<B, V, P, M>>
    decreases c.len(),
{
    if c.len() == 0 {
        c
    } else {
        let before = ready_of(c.drop_last(), decisions);
        if to_import(c.last(), decisions) {
            before.push(c.last())
        } else {
            before
        }
    }
}

/// The imports to run: for each file that was understood and that the
/// decisions do not skip entirely, in order, its name and its contents with
/// the wizard's decisions applied.
pub fn ready_imports<B, V, P, M>(
    candidates: Vec<ImportCandidate<B, V, P, M>>,
    decisions: &Vec<(u128, WizardChoice)>,
) -> (r: Vec<(String, ImportPayload<B, V, P, M>)>)
    ensures
        r@.len() == ready_of(candidates@, decisions@).len(),
        forall|i: int|
            0 <= i < r@.len() ==> (#[trigger] r@[i]).0 == ready_of(candidates@, decisions@)[i].file_name
                && applied_to(
                Some(r@[i].1),
                ready_of(candidates@, decisions@)[i].parsed_data->0,
                decisions@,
            ),
{
    let ghost all = candidates@;
    let ghost ds = decisions@;
    assert(all.len() == candidates.len());
    let mut rest = candidates;
    let mut out: Vec<(String, ImportPayload<B, V, P, M>)> = Vec::new();
    let mut i: usize = 0;
    while rest.len() > 0
        invariant
            i + rest@.len() == all.len(),
            all.len() <= usize::MAX,
            ds == decisions@,
            rest@ == all.skip(i as int),
            out@.len() == ready_of(all.take(i as int), ds).len(),
            forall|k: int|
                0 <= k < out@.len() ==> (#[trigger] out@[k]).0 == ready_of(all.take(i as int), ds)[k].file_name
                    && applied_to(
                    Some(out@[k].1),
                    ready_of(all.take(i as int), ds)[k].parsed_data->0,
                    ds,
                ),
        decreases rest@.len(),
    {
        let candidate = rest.remove(0);
        assert(candidate == all[i as int]);
        assert(all.take(i + 1).drop_last() =~= all.take(i as int));
        assert(all.take(i + 1).last() == all[i as int]);
        assert(rest@ =~= all.skip(i + 1));
        let ghost before = ready_of(all.take(i as int), ds);
        match candidate.parsed_data {
            Some(payload) => {
                let ghost p = payload;
                match apply_wizard_decisions_to_payload(payload, decisions) {
                    Some(adjusted) => {
                        out.push((candidate.file_name, adjusted));
                        assert(!skips_payload(p, ds));
                    },
                    None => {
                        assert(decisions@.len() > 0);
                        assert(skips_payload(p, ds));
                    },
                }
            },
            None => {},
        }
        i = i + 1;
        assert forall|k: int| 0 <= k < out@.len() implies (#[trigger] out@[k]).0 == ready_of(
            all.take(i as int),
            ds,
        )[k].file_name && applied_to(
            Some(out@[k].1),
            ready_of(all.take(i as int), ds)[k].parsed_data->0,
            ds,
        ) by {
            if k < before.len() {
                assert(ready_of(all.take(i as int), ds)[k] == before[k]);
            }
        }
    }
    assert(all.take(all.len() as int) =~= all);
    out
}

/// What one import run brought in.
#[derive(Clone, Copy, Debug, PartialEq, Eq, Structural)]
pub struct ImportSummary {
    pub booths_imported: usize,
    pub vendors_imported: usize,
    pub purchases_imported: usize,
    pub conflicts_resolved: usize,
    pub skipped_records: usize,
}

impl ImportSummary {
    /// Nothing imported yet.
    pub fn empty() -> (r: ImportSummary)
        ensures
            r == (ImportSummary {
                booths_imported: 0,
                vendors_imported: 0,
                purchases_imported: 0,
                conflicts_resolved: 0,
                skipped_records: 0,
            }),
    {
        ImportSummary {
            booths_imported: 0,
            vendors_imported: 0,
            purchases_imported: 0,
            conflicts_resolved: 0,
            skipped_records: 0,
        }
    }

    /// Adds the counts of another run.
    pub fn absorb(&mut self, other: &ImportSummary)
        requires
            old(self).booths_imported + other.booths_imported <= usize::MAX,
            old(self).vendors_imported + other.vendors_imported <= usize::MAX,
            old(self).purchases_imported + other.purchases_imported <= usize::MAX,
            old(self).conflicts_resolved + other.conflicts_resolved <= usize::MAX,
            old(self).skipped_records + other.skipped_records <= usize::MAX,
        ensures
            final(self).booths_imported == old(self).booths_imported + other.booths_imported,
            final(self).vendors_imported == old(self).vendors_imported + other.vendors_imported,
            final(self).purchases_imported == old(self).purchases_imported
                + other.purchases_imported,
            final(self).conflicts_resolved == old(self).conflicts_resolved
                + other.conflicts_resolved,
            final(self).skipped_records == old(self).skipped_records + other.skipped_records,
    {
        self.booths_imported = self.booths_imported + other.booths_imported;
        self.vendors_imported = self.vendors_imported + other.vendors_imported;
        self.purchases_imported = self.purchases_imported + other.purchases_imported;
        self.conflicts_resolved = self.conflicts_resolved + other.conflicts_resolved;
        self.skipped_records = self.skipped_records + other.skipped_records;
    }

    /// Whether the stored booths may have changed, so that booth lists are
    /// to be reloaded.
    pub fn changed_anything(&self) -> (r: bool)
        ensures
            r == (self.booths_imported > 0 || self.vendors_imported > 0 || self.purchases_imported
                > 0 || self.conflicts_resolved > 0),
    {
        self.booths_imported > 0 || self.vendors_imported > 0 || self.purchases_imported > 0
            || self.conflicts_resolved > 0
    }
}

/// How an import run ended, with the message for the operator.
#[derive(Debug, PartialEq, Eq)]
pub enum ImportOutcome {
    /// Every file was imported; the dialog closes.
    Success(String),
    /// Some files failed.
    PartialFailure(String),
}

pub open spec fn count_text(n: usize) -> Seq<char> {
    decimal_text(n as nat)
}

/// The message after an import run in which every file was imported.
pub open spec fn success_text(total: ImportSummary, entries: Seq<(String, JsonValue)>) -> Seq<
    char,
> {
    let t = lookup_text(entries, "backup.import_apply_success"@);
    let t1 = replace_spec(t, "{booths}"@, count_text(total.booths_imported));
    let t2 = replace_spec(t1, "{vendors}"@, count_text(total.vendors_imported));
    let t3 = replace_spec(t2, "{purchases}"@, count_text(total.purchases_imported));
    let t4 = replace_spec(t3, "{resolved}"@, count_text(total.conflicts_resolved));
    replace_spec(t4, "{skipped}"@, count_text(total.skipped_records))
}

/// The message after an import run in which some files failed.
pub open spec fn partial_text(succeeded: usize, failed: usize, entries: Seq<(String, JsonValue)>) -> Seq<
    char,
> {
    let t = lookup_text(entries, "backup.import_partial_success"@);
    let t1 = replace_spec(t, "{success}"@, count_text(succeeded));
    replace_spec(t1, "{failed}"@, count_text(failed))
}

fn fill_count(template: String, placeholder: &str, n: usize) -> (r: String)
    requires
        placeholder@.len() > 0,
    ensures
        r@ == replace_spec(template@, placeholder@, count_text(n)),
{
    let digits = string_of(&decimal_chars(n as u64));
    replace_str(template.as_str(), placeholder, digits.as_str())
}

/// How an import run ended: `total` is what the imported files brought in,
/// `succeeded` and `failed` how many files were and were not imported.
pub fn import_outcome(
    total: &ImportSummary,
    succeeded: usize,
    failed: usize,
    translations: &Translations,
) -> (r: ImportOutcome)
    ensures
        failed == 0 ==> (r matches ImportOutcome::Success(m) && m@ == success_text(
            *total,
            translations.entries(),
        )),
        failed > 0 ==> (r matches ImportOutcome::PartialFailure(m) && m@ == partial_text(
            succeeded,
            failed,
            translations.entries(),
        )),
{
    proof {
        reveal_strlit("{booths}");
        reveal_strlit("{vendors}");
        reveal_strlit("{purchases}");
        reveal_strlit("{resolved}");
        reveal_strlit("{skipped}");
        reveal_strlit("{success}");
        reveal_strlit("{failed}");
    }
    if failed == 0 {
        let t = translations.get("backup.import_apply_success");
        let t = fill_count(t, "{booths}", total.booths_imported);
        let t = fill_count(t, "{vendors}", total.vendors_imported);
        let t = fill_count(t, "{purchases}", total.purchases_imported);
        let t = fill_count(t, "{resolved}", total.conflicts_resolved);
        let t = fill_count(t, "{skipped}", total.skipped_records);
        ImportOutcome::Success(t)
    } else {
        let t = translations.get("backup.import_partial_success");
        let t = fill_count(t, "{success}", succeeded);
        let t = fill_count(t, "{failed}", failed);
        ImportOutcome::PartialFailure(t)
    }
}

/// Where an import run stands.
#[derive(Clone, Copy, Debug, PartialEq, Eq, Structural)]
pub enum ImportRunPhase {
    /// Not started.
    Idle,
    /// Running the `next` of the merges that the "advanced" decisions ask for.
    Merging { next: usize },
    /// Importing the `next` file.
    Importing { next: usize },
    /// A merge failed; nothing was imported.
    Aborted,
    /// Every file was tried.
    Finished,
}

/// An import run: `merges` merges to run first, then `files` files to
/// import, with how many files were imported and how many failed.
#[derive(Clone, Copy, Debug, PartialEq, Eq, Structural)]
pub struct ImportRun {
    pub merges: usize,
    pub files: usize,
    pub phase: ImportRunPhase,
    pub succeeded: usize,
    pub failed: usize,
}

/// What happens during an import run.
#[derive(Clone, Copy, Debug, PartialEq, Eq, Structural)]
pub enum ImportRunEvent {
    /// The operator applied the import.
    Start,
    /// The current merge ended, successfully or not.
    MergeFinished { ok: bool },
    /// The current file's import ended, successfully or not.
    FileFinished { ok: bool },
}

/// What the caller does next.
#[derive(Clone, Copy, Debug, PartialEq, Eq, Structural)]
pub enum ImportRunAction {
    Nothing,
    /// Run the merge at this position.
    RunMerge(usize),
    /// Import the file at this position.
    ImportFile(usize),
    /// Report the failed merge and stop.
    ReportMergeFailed,
    /// Show the results; close the dialog when `close_dialog`.
    Finish { close_dialog: bool },
}

impl ImportRun {
    /// The counts fit the phase: a merge or file position lies within its
    /// list, every file before the current one has one result, and a finished
    /// run has one result per file.
    pub open spec fn wf(self) -> bool {
        match self.phase {
            ImportRunPhase::Idle => self.succeeded == 0 && self.failed == 0,
            ImportRunPhase::Merging { next } => next < self.merges && self.files > 0
                && self.succeeded == 0 && self.failed == 0,
            ImportRunPhase::Importing { next } => next < self.files && self.succeeded + self.failed
                == next,
            ImportRunPhase::Aborted => self.succeeded == 0 && self.failed == 0,
            ImportRunPhase::Finished => self.succeeded + self.failed == self.files,
        }
    }
}

/// The run's next state and action for an event.
pub open spec fn import_run_step(s: ImportRun, e: ImportRunEvent) -> (ImportRun, ImportRunAction) {
    match (s.phase, e) {
        (ImportRunPhase::Idle, ImportRunEvent::Start) => if s.files == 0 {
            (s, ImportRunAction::Nothing)
        } else if s.merges > 0 {
            (ImportRun { phase: ImportRunPhase::Merging { next: 0 }, ..s }, ImportRunAction::RunMerge(0))
        } else {
            (
                ImportRun { phase: ImportRunPhase::Importing { next: 0 }, ..s },
                ImportRunAction::ImportFile(0),
            )
        },
        (ImportRunPhase::Merging { next }, ImportRunEvent::MergeFinished { ok }) => if !ok {
            (ImportRun { phase: ImportRunPhase::Aborted, ..s }, ImportRunAction::ReportMergeFailed)
        } else if next + 1 < s.merges {
            (
                ImportRun { phase: ImportRunPhase::Merging { next: (next + 1) as usize }, ..s },
                ImportRunAction::RunMerge((next + 1) as usize),
            )
        } else {
            (
                ImportRun { phase: ImportRunPhase::Importing { next: 0 }, ..s },
                ImportRunAction::ImportFile(0),
            )
        },
        (ImportRunPhase::Importing { next }, ImportRunEvent::FileFinished { ok }) => {
            let succeeded = if ok { (s.succeeded + 1) as usize } else { s.succeeded };
            let failed = if ok { s.failed } else { (s.failed + 1) as usize };
            if next + 1 < s.files {
                (
                    ImportRun {
                        phase: ImportRunPhase::Importing { next: (next + 1) as usize },
                        succeeded,
                        failed,
                        ..s
                    },
                    ImportRunAction::ImportFile((next + 1) as usize),
                )
            } else {
                (
                    ImportRun { phase: ImportRunPhase::Finished, succeeded, failed, ..s },
                    ImportRunAction::Finish { close_dialog: failed == 0 },
                )
            }
        },
        _ => (s, ImportRunAction::Nothing),
    }
}

impl ImportRun {
    /// A run that has not started.
    pub fn new(merges: usize, files: usize) -> (r: ImportRun)
        ensures
            r == (ImportRun { merges, files, phase: ImportRunPhase::Idle, succeeded: 0, failed: 0 }),
            r.wf(),
    {
        ImportRun { merges, files, phase: ImportRunPhase::Idle, succeeded: 0, failed: 0 }
    }

    /// The run's next state and what the caller does next.
    pub fn handle(self, event: ImportRunEvent) -> (r: (ImportRun, ImportRunAction))
        requires
            self.wf(),
        ensures
            r == import_run_step(self, event),
            r.0.wf(),
    {
        match (self.phase, event) {
            (ImportRunPhase::Idle, ImportRunEvent::Start) => {
                if self.files == 0 {
                    (self, ImportRunAction::Nothing)
                } else if self.merges > 0 {
                    (
                        ImportRun { phase: ImportRunPhase::Merging { next: 0 }, ..self },
                        ImportRunAction::RunMerge(0),
                    )
                } else {
                    (
                        ImportRun { phase: ImportRunPhase::Importing { next: 0 }, ..self },
                        ImportRunAction::ImportFile(0),
                    )
                }
            },
            (ImportRunPhase::Merging { next }, ImportRunEvent::MergeFinished { ok }) => {
                if !ok {
                    (ImportRun { phase: ImportRunPhase::Aborted, ..self }, ImportRunAction::ReportMergeFailed)
                } else if next + 1 < self.merges {
                    (
                        ImportRun { phase: ImportRunPhase::Merging { next: next + 1 }, ..self },
                        ImportRunAction::RunMerge(next + 1),
                    )
                } else {
                    (
                        ImportRun { phase: ImportRunPhase::Importing { next: 0 }, ..self },
                        ImportRunAction::ImportFile(0),
                    )
                }
            },
            (ImportRunPhase::Importing { next }, ImportRunEvent::FileFinished { ok }) => {
                let succeeded = if ok {
                    self.succeeded + 1
                } else {
                    self.succeeded
                };
                let failed = if ok {
                    self.failed
                } else {
                    self.failed + 1
                };
                if next + 1 < self.files {
                    (
                        ImportRun {
                            phase: ImportRunPhase::Importing { next: next + 1 },
                            succeeded,
                            failed,
                            ..self
                        },
                        ImportRunAction::ImportFile(next + 1),
                    )
                } else {
                    (
                        ImportRun { phase: ImportRunPhase::Finished, succeeded, failed, ..self },
                        ImportRunAction::Finish { close_dialog: failed == 0 },
                    )
                }
            },
            _ => (self, ImportRunAction::Nothing),
        }
    }
}

/// The order of an import run: no file is imported while a merge is still to
/// run or after a merge failed; a failed merge ends the run for good; the
/// run finishes with one result per file, and closes the dialog exactly when
/// no file failed.
pub proof fn lemma_import_run_order(s: ImportRun, e: ImportRunEvent)
    requires
        s.wf(),
    ensures
        import_run_step(s, e).1 is ImportFile ==> match s.phase {
            ImportRunPhase::Idle => s.merges == 0,
            ImportRunPhase::Merging { next } => next + 1 == s.merges && e == (ImportRunEvent::MergeFinished { ok: true }),
            ImportRunPhase::Importing { .. } => true,
            _ => false,
        },
        s.phase == ImportRunPhase::Aborted ==> import_run_step(s, e) == (s, ImportRunAction::Nothing),
        import_run_step(s, e).1 matches ImportRunAction::Finish { close_dialog } ==> ({
            let t = import_run_step(s, e).0;
            &&& t.phase == ImportRunPhase::Finished
            &&& t.succeeded + t.failed == s.files
            &&& close_dialog == (t.failed == 0)
        }),
{
}

} // verus!
