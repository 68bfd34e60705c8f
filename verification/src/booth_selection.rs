//! The selected booth: how the selection is restored from storage at start,
//! kept fresh after edits, and followed across browser tabs.
//!
//! Booth ids are UUIDs, held as `u128`. The functions here decide; the caller
//! reads storage and the booth repository and carries the decisions out.

use vstd::prelude::*;

use crate::text::{
    chars_eq_str, chars_of, decimal_chars, decimal_text, parse_unsigned, parse_unsigned_spec,
    replace_spec, replace_str, string_of,
};
use crate::translations::{lookup_text, Translations};

verus! {

pub const SELECTED_BOOTH_STORAGE_KEY: &'static str = "ez-vend-selected-booth-id";

pub const BOOTH_LIST_VERSION_STORAGE_KEY: &'static str = "ez-vend-list-version";

/// The UUID that `uuid::Uuid::parse_str` reads from a text, as a `u128`
/// (big-endian), or `None` when the text is no UUID.
pub uninterp spec fn uuid_value(s: Seq<char>) -> Option<u128>;

/// `uuid::Uuid::parse_str` followed by `Uuid::as_u128`.
#[verifier::external_body]
fn parse_uuid(s: &str) -> (r: Option<u128>)
    ensures
        r == uuid_value(s@),
{
    match uuid::Uuid::parse_str(s) {
        Ok(id) => Some(id.as_u128()),
        Err(_) => None,
    }
}

/// The booth id kept in storage, if there is one and it is a UUID.
pub fn load_selected_booth_id(stored: Option<String>) -> (r: Option<u128>)
    ensures
        r == (match stored {
            Some(s) => uuid_value(s@),
            None => None,
        }),
{
    match stored {
        Some(s) => parse_uuid(s.as_str()),
        None => None,
    }
}

/// What the booth repository answered for a booth id.
#[derive(Clone, Copy, Debug, PartialEq, Eq, Structural)]
pub enum BoothLookup {
    /// The booth exists; whether it is archived.
    Found { archived: bool },
    /// No booth has that id.
    Missing,
    /// The repository failed.
    Failed,
}

/// What to do with the selection.
#[derive(Clone, Copy, Debug, PartialEq, Eq, Structural)]
pub enum SelectionAction {
    /// Select the booth that was looked up.
    Select,
    /// Clear the selection and the stored id, and bump the booth list version.
    ClearAndBumpVersion,
    /// Clear the selection and the stored id.
    Clear,
    /// Remove the stored id only.
    ClearStorage,
    /// Leave everything as it is.
    Keep,
}

/// Restoring the stored selection at start: an archived booth clears the
/// selection (and bumps the list version), an existing booth is selected, and
/// a missing booth or a failed lookup clears the stored id.
pub fn restore_action(lookup: BoothLookup) -> (r: SelectionAction)
    ensures
        r == (match lookup {
            BoothLookup::Found { archived: true } => SelectionAction::ClearAndBumpVersion,
            BoothLookup::Found { archived: false } => SelectionAction::Select,
            _ => SelectionAction::ClearStorage,
        }),
{
    match lookup {
        BoothLookup::Found { archived } => if archived {
            SelectionAction::ClearAndBumpVersion
        } else {
            SelectionAction::Select
        },
        BoothLookup::Missing | BoothLookup::Failed => SelectionAction::ClearStorage,
    }
}

/// Refreshing the selected booth after the booth list changed: an archived
/// booth clears the selection (bumping the version when the caller tracks it),
/// an existing booth is taken as it is now, a missing booth clears the
/// selection, and a failed lookup changes nothing.
pub fn refresh_action(lookup: BoothLookup, tracks_version: bool) -> (r: SelectionAction)
    ensures
        r == (match lookup {
            BoothLookup::Found { archived: true } => if tracks_version {
                SelectionAction::ClearAndBumpVersion
            } else {
                SelectionAction::Clear
            },
            BoothLookup::Found { archived: false } => SelectionAction::Select,
            BoothLookup::Missing => SelectionAction::Clear,
            BoothLookup::Failed => SelectionAction::Keep,
        }),
{
    match lookup {
        BoothLookup::Found { archived } => if archived {
            if tracks_version {
                SelectionAction::ClearAndBumpVersion
            } else {
                SelectionAction::Clear
            }
        } else {
            SelectionAction::Select
        },
        BoothLookup::Missing => SelectionAction::Clear,
        BoothLookup::Failed => SelectionAction::Keep,
    }
}

/// Without a stored selection, the only booth is selected when there is
/// exactly one.
pub fn auto_select_single_booth(booth_count: usize) -> (r: bool)
    ensures
        r == (booth_count == 1),
{
    booth_count == 1
}

/// The booth list version after a change.
pub fn bumped_version(version: u32) -> (r: u32)
    requires
        version < u32::MAX,
    ensures
        r == version + 1,
{
    version + 1
}

/// A stored booth list version read back, 0 when there is none or it is no
/// `u32`.
pub fn initial_list_version(stored: Option<String>) -> (r: u32)
    ensures
        r == (match stored {
            Some(s) => match parse_unsigned_spec(s@, u32::MAX as nat) {
                Some(v) => v as u32,
                None => 0,
            },
            None => 0,
        }),
{
    match stored {
        Some(s) => match parse_unsigned(&chars_of(s.as_str()), u32::MAX as u64) {
            Some(v) => v as u32,
            None => 0,
        },
        None => 0,
    }
}

/// Following the booth list version: the first version seen is only noted;
/// a different version afterwards is noted and calls for a refresh of the
/// selected booth, when one is selected.
pub fn sync_list_version(synced: Option<u32>, version: u32, has_selection: bool) -> (r: (
    Option<u32>,
    bool,
))
    ensures
        r == (match synced {
            None => (Some(version), false),
            Some(p) => if p == version {
                (synced, false)
            } else {
                (Some(version), has_selection)
            },
        }),
{
    match synced {
        None => (Some(version), false),
        Some(previous) => if previous == version {
            (synced, false)
        } else {
            (Some(version), has_selection)
        },
    }
}

/// A change that another tab made to storage.
#[derive(Clone, Copy, Debug, PartialEq, Eq, Structural)]
pub enum StorageChange {
    /// The other tab cleared the selection.
    SelectionCleared,
    /// The other tab selected the booth with this id.
    SelectionChanged(u128),
    /// The other tab changed the booth list.
    ListChanged,
    /// The other tab set the booth list version to this value.
    ListVersionSet(u32),
    /// Nothing this tab follows.
    Ignored,
}

/// How this tab reads a storage event of another tab with the given key and
/// new value.
pub open spec fn storage_change_spec(key: Option<Seq<char>>, new_value: Option<Seq<char>>) -> (
    StorageChange,
    StorageChange,
) {
    let selection = if key == Some(SELECTED_BOOTH_STORAGE_KEY@) {
        match new_value {
            None => StorageChange::SelectionCleared,
            Some(v) => match uuid_value(v) {
                Some(id) => StorageChange::SelectionChanged(id),
                None => StorageChange::Ignored,
            },
        }
    } else if key == Some(BOOTH_LIST_VERSION_STORAGE_KEY@) {
        StorageChange::ListChanged
    } else {
        StorageChange::Ignored
    };
    let version = if key == Some(BOOTH_LIST_VERSION_STORAGE_KEY@) {
        match new_value {
            Some(v) => match parse_unsigned_spec(v, u32::MAX as nat) {
                Some(n) => StorageChange::ListVersionSet(n as u32),
                None => StorageChange::Ignored,
            },
            None => StorageChange::Ignored,
        }
    } else {
        StorageChange::Ignored
    };
    (selection, version)
}

/// Reads a storage event of another tab. The first result is for the selected
/// booth, the second for the booth list version.
pub fn storage_change(key: Option<String>, new_value: Option<String>) -> (r: (
    StorageChange,
    StorageChange,
))
    ensures
        r == storage_change_spec(
            match key {
                Some(k) => Some(k@),
                None => None,
            },
            match new_value {
                Some(v) => Some(v@),
                None => None,
            },
        ),
{
    let (is_selection, is_version) = match &key {
        Some(k) => {
            let kc = chars_of(k.as_str());
            (
                chars_eq_str(&kc, SELECTED_BOOTH_STORAGE_KEY),
                chars_eq_str(&kc, BOOTH_LIST_VERSION_STORAGE_KEY),
            )
        },
        None => (false, false),
    };
    let selection = if is_selection {
        match &new_value {
            None => StorageChange::SelectionCleared,
            Some(v) => match parse_uuid(v.as_str()) {
                Some(id) => StorageChange::SelectionChanged(id),
                None => StorageChange::Ignored,
            },
        }
    } else if is_version {
        StorageChange::ListChanged
    } else {
        StorageChange::Ignored
    };
    let version = if is_version {
        match &new_value {
            Some(v) => match parse_unsigned(&chars_of(v.as_str()), u32::MAX as u64) {
                Some(n) => StorageChange::ListVersionSet(n as u32),
                None => StorageChange::Ignored,
            },
            None => StorageChange::Ignored,
        }
    } else {
        StorageChange::Ignored
    };
    (selection, version)
}

/// The booths the selector offers: the ids of the booths that are not
/// archived, in the order given. Each booth is its id and whether it is
/// archived.
pub open spec fn active_booth_ids(booths: Seq<(u128, bool)>) -> Seq<u128>
    decreases booths.len(),
{
    if booths.len() == 0 {
        Seq::empty()
    } else if booths.last().1 {
        active_booth_ids(booths.drop_last())
    } else {
        active_booth_ids(booths.drop_last()).push(booths.last().0)
    }
}

/// How many of the booths are archived.
pub open spec fn archived_count(booths: Seq<(u128, bool)>) -> nat
    decreases booths.len(),
{
    if booths.len() == 0 {
        0
    } else {
        archived_count(booths.drop_last()) + if booths.last().1 {
            1nat
        } else {
            0nat
        }
    }
}

proof fn lemma_archived_count_bound(booths: Seq<(u128, bool)>)
    ensures
        archived_count(booths) <= booths.len(),
    decreases booths.len(),
{
    if booths.len() > 0 {
        lemma_archived_count_bound(booths.drop_last());
    }
}

/// The booth selector's list: the ids of the booths not archived, in order,
/// and how many booths are archived.
pub fn selector_booths(booths: &Vec<(u128, bool)>) -> (r: (Vec<u128>, usize))
    ensures
        r.0@ == active_booth_ids(booths@),
        r.1 == archived_count(booths@),
{
    let mut ids: Vec<u128> = Vec::new();
    let mut archived: usize = 0;
    let mut i: usize = 0;
    while i < booths.len()
        invariant
            i <= booths@.len(),
            ids@ == active_booth_ids(booths@.take(i as int)),
            archived == archived_count(booths@.take(i as int)),
        decreases booths.len() - i,
    {
        proof {
            assert(booths@.take(i + 1).drop_last() =~= booths@.take(i as int));
            lemma_archived_count_bound(booths@.take(i as int));
        }
        let (id, is_archived) = booths[i];
        if is_archived {
            archived = archived + 1;
        } else {
            ids.push(id);
        }
        i = i + 1;
    }
    assert(booths@.take(booths@.len() as int) =~= booths@);
    (ids, archived)
}

/// The two lines the selector shows when it offers no booth: every booth is
/// archived (with the counts), or there is no booth yet.
pub fn selector_empty_texts(archived: usize, translations: &Translations) -> (r: (String, String))
    ensures
        archived > 0 ==> r.0@ == lookup_text(translations.entries(), "booth.selector_all_archived"@)
            && r.1@ == replace_spec(
            replace_spec(
                lookup_text(translations.entries(), "booth.selector_count_with_archived"@),
                "{active}"@,
                "0"@,
            ),
            "{archived}"@,
            decimal_text(archived as nat),
        ),
        archived == 0 ==> r.0@ == lookup_text(translations.entries(), "booth.no_booths_found"@)
            && r.1@ == lookup_text(translations.entries(), "booth.create_first_booth"@),
{
    proof {
        reveal_strlit("{active}");
        reveal_strlit("{archived}");
    }
    if archived > 0 {
        let title = translations.get("booth.selector_all_archived");
        let template = translations.get("booth.selector_count_with_archived");
        let a = replace_str(template.as_str(), "{active}", "0");
        let n = string_of(&decimal_chars(archived as u64));
        (title, replace_str(a.as_str(), "{archived}", n.as_str()))
    } else {
        (translations.get("booth.no_booths_found"), translations.get("booth.create_first_booth"))
    }
}

} // verus!
