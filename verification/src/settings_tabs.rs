//! Tabs of the settings page and their place in the page address.

use vstd::prelude::*;

use crate::text::{chars_eq_str, chars_of};

verus! {

pub const SETTINGS_TAB_GENERAL_ID: &'static str = "general";

pub const SETTINGS_TAB_DIAGNOSTICS_ID: &'static str = "diagnostics";

pub const SETTINGS_TAB_MIGRATION_ID: &'static str = "migration";

/// The tab that an id selects: diagnostics 1, migration 2, anything else 0.
pub open spec fn tab_index_of_id(id: Seq<char>) -> usize {
    if id == "diagnostics"@ {
        1
    } else if id == "migration"@ {
        2
    } else {
        0
    }
}

/// `s` without its leading `#` characters.
pub open spec fn strip_hashes(s: Seq<char>) -> Seq<char>
    decreases s.len(),
{
    if s.len() > 0 && s[0] == '#' {
        strip_hashes(s.drop_first())
    } else {
        s
    }
}

pub open spec fn tab_id_spec(index: usize) -> Seq<char> {
    if index == 1 {
        "diagnostics"@
    } else if index == 2 {
        "migration"@
    } else {
        "general"@
    }
}

pub open spec fn tab_hash_spec(index: usize) -> Seq<char> {
    if index == 1 {
        "#diagnostics"@
    } else if index == 2 {
        "#migration"@
    } else {
        "#general"@
    }
}

/// The tab that an id selects.
pub fn settings_tab_index_from_id(tab_id: &str) -> (r: usize)
    ensures
        r == tab_index_of_id(tab_id@),
{
    let v = chars_of(tab_id);
    if chars_eq_str(&v, SETTINGS_TAB_DIAGNOSTICS_ID) {
        1
    } else if chars_eq_str(&v, SETTINGS_TAB_MIGRATION_ID) {
        2
    } else {
        0
    }
}

/// The tab that a location hash (`#diagnostics`, ...) selects.
pub fn settings_tab_index_from_hash(hash: &str) -> (r: usize)
    ensures
        r == tab_index_of_id(strip_hashes(hash@)),
{
    let v = chars_of(hash);
    let mut i: usize = 0;
    assert(v@.skip(0) =~= v@);
    while i < v.len() && v[i] == '#'
        invariant
            i <= v@.len(),
            v@ == hash@,
            strip_hashes(hash@) == strip_hashes(v@.skip(i as int)),
        decreases v.len() - i,
    {
        assert(v@.skip(i as int).drop_first() =~= v@.skip(i + 1));
        i = i + 1;
    }
    let mut id: Vec<char> = Vec::new();
    let mut k = i;
    while k < v.len()
        invariant
            i <= k <= v@.len(),
            id@ == v@.subrange(i as int, k as int),
        decreases v.len() - k,
    {
        id.push(v[k]);
        k = k + 1;
        assert(id@ =~= v@.subrange(i as int, k as int));
    }
    assert(id@ =~= v@.skip(i as int));
    if chars_eq_str(&id, SETTINGS_TAB_DIAGNOSTICS_ID) {
        1
    } else if chars_eq_str(&id, SETTINGS_TAB_MIGRATION_ID) {
        2
    } else {
        0
    }
}

/// The location hash of a tab.
pub fn settings_tab_hash(index: usize) -> (r: &'static str)
    ensures
        r@ == tab_hash_spec(index),
{
    match index {
        1 => "#diagnostics",
        2 => "#migration",
        _ => "#general",
    }
}

/// The id of a tab.
pub fn settings_tab_id(index: usize) -> (r: &'static str)
    ensures
        r@ == tab_id_spec(index),
{
    match index {
        1 => SETTINGS_TAB_DIAGNOSTICS_ID,
        2 => SETTINGS_TAB_MIGRATION_ID,
        _ => SETTINGS_TAB_GENERAL_ID,
    }
}

/// The tab to open from the page address: the `tab` query parameter when there
/// is one, else the hash, else the first tab.
pub fn settings_tab_index_from_location(tab_param: Option<String>, hash: Option<String>) -> (r:
    usize)
    ensures
        r == (match tab_param {
            Some(t) => tab_index_of_id(t@),
            None => match hash {
                Some(h) => tab_index_of_id(strip_hashes(h@)),
                None => 0,
            },
        }),
{
    match tab_param {
        Some(tab) => settings_tab_index_from_id(tab.as_str()),
        None => match hash {
            Some(h) => settings_tab_index_from_hash(h.as_str()),
            None => 0,
        },
    }
}

/// A tab's id and its hash both lead back to the tab; a number past the last
/// tab leads to the first.
pub proof fn lemma_tab_round_trip(index: usize)
    ensures
        tab_index_of_id(tab_id_spec(index)) == (if index < 3 {
            index
        } else {
            0
        }),
        tab_index_of_id(strip_hashes(tab_hash_spec(index))) == (if index < 3 {
            index
        } else {
            0
        }),
{
    reveal_strlit("general");
    reveal_strlit("diagnostics");
    reveal_strlit("migration");
    reveal_strlit("#general");
    reveal_strlit("#diagnostics");
    reveal_strlit("#migration");
    assert("general"@.len() == 7 && "diagnostics"@.len() == 11 && "migration"@.len() == 9);
    assert("#general"@.drop_first() =~= "general"@);
    assert("#diagnostics"@.drop_first() =~= "diagnostics"@);
    assert("#migration"@.drop_first() =~= "migration"@);
    assert("general"@[0] == 'g' && "diagnostics"@[0] == 'd' && "migration"@[0] == 'm');
    assert(strip_hashes("general"@) == "general"@);
    assert(strip_hashes("diagnostics"@) == "diagnostics"@);
    assert(strip_hashes("migration"@) == "migration"@);
}

} // verus!
