//! A row of tabs: which tab is active, moving between tabs with the keyboard,
//! and the ids that tie each tab to its panel.

use vstd::prelude::*;

use crate::text::{append_str, chars_eq, chars_of, owned};

verus! {

/// One tab of a tab group.
#[derive(Debug)]
pub struct TabItem {
    pub id: String,
    pub label: String,
    /// Whether the tab's panel has validation errors.
    pub has_error: bool,
}

/// The tab shown for an active index: the index, or the last tab when the
/// index is past the end.
pub open spec fn shown_index(active: nat, count: nat) -> nat {
    if active < count {
        active
    } else if count > 0 {
        (count - 1) as nat
    } else {
        0
    }
}

/// The tab a key moves to: the next one (wrapping) for the right arrow, the
/// previous one (wrapping) for the left arrow, the first for Home, the last
/// for End; other keys and an empty group move nowhere.
pub open spec fn tab_after_key_spec(active: nat, count: nat, key: Seq<char>) -> Option<nat> {
    if count == 0 {
        None
    } else {
        let current = shown_index(active, count) as int;
        let c = count as int;
        if key == "ArrowRight"@ {
            Some(((current + 1) % c) as nat)
        } else if key == "ArrowLeft"@ {
            Some(((current + c - 1) % c) as nat)
        } else if key == "Home"@ {
            Some(0)
        } else if key == "End"@ {
            Some((count - 1) as nat)
        } else {
            None
        }
    }
}

/// The tab that a key press moves to.
pub fn tab_after_key(active: usize, count: usize, key: &str) -> (r: Option<usize>)
    ensures
        match tab_after_key_spec(active as nat, count as nat, key@) {
            Some(i) => r == Some(i as usize),
            None => r is None,
        },
{
    if count == 0 {
        return None;
    }
    let current = if active < count {
        active
    } else {
        count - 1
    };
    proof {
        reveal_strlit("ArrowRight");
        reveal_strlit("ArrowLeft");
        reveal_strlit("Home");
        reveal_strlit("End");
        assert("ArrowRight"@.len() != "ArrowLeft"@.len());
        assert("ArrowRight"@.len() != "Home"@.len() && "ArrowLeft"@.len() != "Home"@.len());
        assert("ArrowRight"@.len() != "End"@.len() && "ArrowLeft"@.len() != "End"@.len());
        assert("Home"@.len() != "End"@.len());
    }
    let k = chars_of(key);
    if crate::text::chars_eq_str(&k, "ArrowRight") {
        if current + 1 == count {
            assert((current as int + 1) % (count as int) == 0) by (nonlinear_arith)
                requires
                    current + 1 == count,
                    count > 0,
            ;
            Some(0)
        } else {
            assert((current as int + 1) % (count as int) == current + 1) by (nonlinear_arith)
                requires
                    current + 1 < count,
            ;
            Some(current + 1)
        }
    } else if crate::text::chars_eq_str(&k, "ArrowLeft") {
        if current == 0 {
            assert((current as int + count as int - 1) % (count as int) == count - 1) by (nonlinear_arith)
                requires
                    current == 0,
                    count > 0,
            ;
            Some(count - 1)
        } else {
            assert((current + count - 1) % (count as int) == current - 1) by (nonlinear_arith)
                requires
                    0 < current < count,
            {
                assert(current + count - 1 == (current - 1) + count);
            }
            Some(current - 1)
        }
    } else if crate::text::chars_eq_str(&k, "Home") {
        Some(0)
    } else if crate::text::chars_eq_str(&k, "End") {
        Some(count - 1)
    } else {
        None
    }
}

/// The right arrow and then the left arrow lead back to the tab shown before,
/// and the other way round.
pub proof fn lemma_arrows_undo(active: nat, count: nat)
    requires
        count > 0,
    ensures
        ({
            let current = shown_index(active, count);
            let right = tab_after_key_spec(active, count, "ArrowRight"@)->0;
            let left = tab_after_key_spec(active, count, "ArrowLeft"@)->0;
            &&& tab_after_key_spec(right, count, "ArrowLeft"@) == Some(current)
            &&& tab_after_key_spec(left, count, "ArrowRight"@) == Some(current)
        }),
{
    reveal_strlit("ArrowRight");
    reveal_strlit("ArrowLeft");
    assert("ArrowRight"@.len() != "ArrowLeft"@.len());
    let current = shown_index(active, count) as int;
    let c = count as int;
    assert(current < c);
    let right = ((current + 1) % c) as nat;
    assert(right < count) by (nonlinear_arith)
        requires
            c > 0,
            count == c,
            right == ((current + 1) % c) as nat,
    ;
    assert(((right + c - 1) % c) == current) by (nonlinear_arith)
        requires
            c > 0,
            0 <= current < c,
            right == (current + 1) % c,
    {
        if current + 1 < c {
            assert((current + 1) % c == current + 1);
            assert(right + c - 1 == current + c);
            assert((current + c) % c == current);
        } else {
            assert((current + 1) % c == 0);
            assert((c - 1) % c == c - 1);
        }
    }
    let left = ((current + c - 1) % c) as nat;
    assert(left < count) by (nonlinear_arith)
        requires
            c > 0,
            count == c,
            left == ((current + c - 1) % c) as nat,
    ;
    assert(((left as int + 1) % c) == current) by (nonlinear_arith)
        requires
            c > 0,
            0 <= current < c,
            left == (current + c - 1) % c,
    {
        if current > 0 {
            assert((current + c - 1) % c == current - 1);
            assert((current - 1 + 1) % c == current);
        } else {
            assert((c - 1) % c == c - 1);
            assert((c - 1 + 1) % c == 0);
        }
    }
    assert(shown_index(right, count) == right);
    assert(shown_index(left, count) == left);
    assert(shown_index(active, count) == current);
}

/// The index of the tab with id `id`, if the group has one.
pub fn tab_position(tabs: &Vec<TabItem>, id: &str) -> (r: Option<usize>)
    ensures
        match r {
            Some(i) => i < tabs@.len() && tabs@[i as int].id@ == id@ && forall|k: int|
                0 <= k < i ==> tabs@[k].id@ != id@,
            None => forall|k: int| 0 <= k < tabs@.len() ==> tabs@[k].id@ != id@,
        },
{
    let target = chars_of(id);
    let mut i: usize = 0;
    while i < tabs.len()
        invariant
            i <= tabs@.len(),
            target@ == id@,
            forall|k: int| 0 <= k < i ==> tabs@[k].id@ != id@,
        decreases tabs.len() - i,
    {
        if chars_eq(&chars_of(tabs[i].id.as_str()), &target) {
            return Some(i);
        }
        i = i + 1;
    }
    None
}

/// Whether the tab with id `id` is the active one.
pub fn is_active_tab(tabs: &Vec<TabItem>, id: &str, active: usize) -> (r: bool)
    ensures
        r == (exists|i: int|
            0 <= i < tabs@.len() && tabs@[i].id@ == id@ && (forall|k: int|
                0 <= k < i ==> tabs@[k].id@ != id@) && i == active),
{
    match tab_position(tabs, id) {
        Some(i) => i == active,
        None => false,
    }
}

/// The ids of the panel shown and of its tab: `panel-<id>` and `tab-<id>` of
/// the shown tab, or `panel-empty` and `tab-empty` for an empty group.
pub fn panel_ids(tabs: &Vec<TabItem>, active: usize) -> (r: (String, String))
    ensures
        tabs@.len() == 0 ==> r.0@ == "panel-empty"@ && r.1@ == "tab-empty"@,
        tabs@.len() > 0 ==> ({
            let id = tabs@[shown_index(active as nat, tabs@.len()) as int].id@;
            r.0@ == "panel-"@ + id && r.1@ == "tab-"@ + id
        }),
{
    if tabs.len() == 0 {
        return (owned("panel-empty"), owned("tab-empty"));
    }
    let i = if active < tabs.len() {
        active
    } else {
        tabs.len() - 1
    };
    let mut panel = owned("panel-");
    append_str(&mut panel, tabs[i].id.as_str());
    let mut tab = owned("tab-");
    append_str(&mut tab, tabs[i].id.as_str());
    (panel, tab)
}

} // verus!
