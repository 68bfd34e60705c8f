//! The vendor list of a booth: its filters, the search over vendor numbers,
//! the vendors without purchases, and the selection of vendors for printing.

use vstd::prelude::*;
use vstd::relations::sorted_by;

use crate::booth_form::{is_blank, DecimalInputParseError, DecimalValue};
use crate::decimal::{decimal_sub, sub_exact, sub_spec};
use crate::text::{
    append_str, chars_of, contains_seq, contains_str, decimal_chars, decimal_text, owned,
    string_of, string_views, trim_chars, trim_spec,
};
use crate::translations::{fill_template, lookup_text, pair_views, JsonValue, Translations};
use crate::text_order::{lemma_text_order_total, sort_texts, text_order};

verus! {

/// `str::to_lowercase` (Unicode lower case) of a string.
pub uninterp spec fn unicode_lowercase(s: Seq<char>) -> Seq<char>;

/// `str::to_lowercase`: the result is `unicode_lowercase` of the argument.
#[verifier::external_body]
fn to_lowercase(s: &str) -> (r: String)
    ensures
        r@ == unicode_lowercase(s@),
{
    s.to_lowercase()
}

/// What the list reads of a vendor's report.
#[derive(Debug)]
pub struct VendorReportLine {
    pub vendor_id: String,
    pub total_revenue: DecimalValue,
    pub payout_correction: DecimalValue,
    pub payout_correction_note: Option<String>,
}

impl Clone for VendorReportLine {
    fn clone(&self) -> (r: Self)
        ensures
            r == *self,
    {
        VendorReportLine {
            vendor_id: self.vendor_id.clone(),
            total_revenue: self.total_revenue,
            payout_correction: self.payout_correction,
            payout_correction_note: match &self.payout_correction_note {
                Some(note) => Some(note.clone()),
                None => None,
            },
        }
    }
}

/// The vendor earned nothing or less.
pub open spec fn is_non_positive(line: VendorReportLine) -> bool {
    line.total_revenue.mantissa <= 0
}

/// The vendor's payout was corrected: by an amount, or with a note that is
/// not blank.
pub open spec fn is_corrected(line: VendorReportLine) -> bool {
    line.payout_correction.mantissa != 0 || match line.payout_correction_note {
        Some(note) => !is_blank(note@),
        None => false,
    }
}

/// A lower-cased vendor number matches a search key: the key is empty or
/// occurs in it.
pub open spec fn matches_key(lowered_id: Seq<char>, key: Seq<char>) -> bool {
    key.len() == 0 || contains_seq(lowered_id, key)
}

/// Whether a report is shown under the filters and the search key.
pub open spec fn line_shown(
    line: VendorReportLine,
    only_non_positive: bool,
    only_corrected: bool,
    key: Seq<char>,
) -> bool {
    &&& !only_non_positive || is_non_positive(line)
    &&& !only_corrected || is_corrected(line)
    &&& matches_key(unicode_lowercase(line.vendor_id@), key)
}

/// The key that a search text is matched by: trimmed and lower-cased.
pub fn search_key(query: &str) -> (r: String)
    ensures
        r@ == unicode_lowercase(trim_spec(query@)),
{
    let trimmed = string_of(&trim_chars(&chars_of(query)));
    to_lowercase(trimmed.as_str())
}

/// Whether a lower-cased vendor number matches a search key.
pub fn matches_search(lowered_id: &str, key: &str) -> (r: bool)
    ensures
        r == matches_key(lowered_id@, key@),
{
    let k = chars_of(key);
    if k.len() == 0 {
        return true;
    }
    contains_str(&chars_of(lowered_id), key)
}

/// Whether a report is corrected.
pub fn has_correction(line: &VendorReportLine) -> (r: bool)
    ensures
        r == is_corrected(*line),
{
    if line.payout_correction.mantissa != 0 {
        return true;
    }
    match &line.payout_correction_note {
        Some(note) => trim_chars(&chars_of(note.as_str())).len() > 0,
        None => false,
    }
}

/// The reports shown under the filters ("earned nothing", "corrected") and
/// the search text, in their order.
pub fn filter_vendor_reports(
    reports: &Vec<VendorReportLine>,
    only_non_positive: bool,
    only_corrected: bool,
    search_query: &str,
) -> (r: Vec<VendorReportLine>)
    ensures
        r@ == reports@.filter(
            |l: VendorReportLine|
                line_shown(
                    l,
                    only_non_positive,
                    only_corrected,
                    unicode_lowercase(trim_spec(search_query@)),
                ),
        ),
{
    let key = search_key(search_query);
    let ghost pred = |l: VendorReportLine|
        line_shown(l, only_non_positive, only_corrected, key@);
    let mut out: Vec<VendorReportLine> = Vec::new();
    let mut i: usize = 0;
    assert(reports@.take(0).filter(pred) =~= Seq::<VendorReportLine>::empty()) by {
        reveal_with_fuel(Seq::filter, 1);
    }
    while i < reports.len()
        invariant
            i <= reports@.len(),
            pred == (|l: VendorReportLine| line_shown(l, only_non_positive, only_corrected, key@)),
            out@ == reports@.take(i as int).filter(pred),
        decreases reports.len() - i,
    {
        let line = &reports[i];
        let lowered = to_lowercase(line.vendor_id.as_str());
        let shown = (!only_non_positive || line.total_revenue.mantissa <= 0) && (!only_corrected
            || has_correction(line)) && matches_search(lowered.as_str(), key.as_str());
        assert(shown == pred(reports@[i as int]));
        proof {
            reports@.take(i as int).lemma_filter_push(reports@[i as int], pred);
            assert(reports@.take(i + 1) =~= reports@.take(i as int).push(reports@[i as int]));
        }
        if shown {
            out.push(line.clone());
        }
        i = i + 1;
    }
    assert(reports@.take(reports@.len() as int) =~= reports@);
    out
}

/// How many reports show the vendor earning nothing or less.
pub fn count_non_positive(reports: &Vec<VendorReportLine>) -> (r: usize)
    ensures
        r == reports@.filter(|l: VendorReportLine| is_non_positive(l)).len(),
{
    let ghost pred = |l: VendorReportLine| is_non_positive(l);
    let mut n: usize = 0;
    let mut i: usize = 0;
    assert(reports@.take(0).filter(pred) =~= Seq::<VendorReportLine>::empty()) by {
        reveal_with_fuel(Seq::filter, 1);
    }
    while i < reports.len()
        invariant
            i <= reports@.len(),
            pred == (|l: VendorReportLine| is_non_positive(l)),
            n == reports@.take(i as int).filter(pred).len(),
            n <= i,
        decreases reports.len() - i,
    {
        proof {
            reports@.take(i as int).lemma_filter_push(reports@[i as int], pred);
            assert(reports@.take(i + 1) =~= reports@.take(i as int).push(reports@[i as int]));
        }
        if reports[i].total_revenue.mantissa <= 0 {
            n = n + 1;
        }
        i = i + 1;
    }
    assert(reports@.take(reports@.len() as int) =~= reports@);
    n
}

/// How many reports are corrected.
pub fn count_corrected(reports: &Vec<VendorReportLine>) -> (r: usize)
    ensures
        r == reports@.filter(|l: VendorReportLine| is_corrected(l)).len(),
{
    let ghost pred = |l: VendorReportLine| is_corrected(l);
    let mut n: usize = 0;
    let mut i: usize = 0;
    assert(reports@.take(0).filter(pred) =~= Seq::<VendorReportLine>::empty()) by {
        reveal_with_fuel(Seq::filter, 1);
    }
    while i < reports.len()
        invariant
            i <= reports@.len(),
            pred == (|l: VendorReportLine| is_corrected(l)),
            n == reports@.take(i as int).filter(pred).len(),
            n <= i,
        decreases reports.len() - i,
    {
        proof {
            reports@.take(i as int).lemma_filter_push(reports@[i as int], pred);
            assert(reports@.take(i + 1) =~= reports@.take(i as int).push(reports@[i as int]));
        }
        if has_correction(&reports[i]) {
            n = n + 1;
        }
        i = i + 1;
    }
    assert(reports@.take(reports@.len() as int) =~= reports@);
    n
}

/// The vendor numbers that match the search text, in their order.
pub fn filter_vendor_ids(vendor_ids: &Vec<String>, search_query: &str) -> (r: Vec<String>)
    ensures
        r@ == vendor_ids@.filter(
            |v: String| matches_key(unicode_lowercase(v@), unicode_lowercase(trim_spec(search_query@))),
        ),
{
    let key = search_key(search_query);
    let ghost pred = |v: String| matches_key(unicode_lowercase(v@), key@);
    let mut out: Vec<String> = Vec::new();
    let mut i: usize = 0;
    assert(vendor_ids@.take(0).filter(pred) =~= Seq::<String>::empty()) by {
        reveal_with_fuel(Seq::filter, 1);
    }
    while i < vendor_ids.len()
        invariant
            i <= vendor_ids@.len(),
            pred == (|v: String| matches_key(unicode_lowercase(v@), key@)),
            out@ == vendor_ids@.take(i as int).filter(pred),
        decreases vendor_ids.len() - i,
    {
        let lowered = to_lowercase(vendor_ids[i].as_str());
        let shown = matches_search(lowered.as_str(), key.as_str());
        proof {
            vendor_ids@.take(i as int).lemma_filter_push(vendor_ids@[i as int], pred);
            assert(vendor_ids@.take(i + 1) =~= vendor_ids@.take(i as int).push(vendor_ids@[i as int]));
        }
        if shown {
            out.push(vendor_ids[i].clone());
        }
        i = i + 1;
    }
    assert(vendor_ids@.take(vendor_ids@.len() as int) =~= vendor_ids@);
    out
}

fn position_of(ids: &Vec<String>, id: &String) -> (r: Option<usize>)
    ensures
        r == (match string_views(ids@).index_of_first(id@) {
            Some(i) => Some(i as usize),
            None => None,
        }),
        r matches Some(p) ==> p < ids@.len(),
{
    let ghost s = string_views(ids@);
    let mut i: usize = 0;
    while i < ids.len()
        invariant
            i <= ids@.len(),
            s == string_views(ids@),
            forall|k: int| 0 <= k < i ==> s[k] != id@,
        decreases ids.len() - i,
    {
        if ids[i] == *id {
            proof {
                assert(s[i as int] == id@);
                s.index_of_first_ensures(id@);
                match s.index_of_first(id@) {
                    Some(j) => {
                        if j < i {
                            assert(s[j] != id@);
                        }
                        if i < j {
                            assert(s[i as int] != id@);
                        }
                    },
                    None => {
                        assert(s.contains(id@));
                    },
                }
            }
            return Some(i);
        }
        i = i + 1;
    }
    proof {
        s.index_of_first_ensures(id@);
        match s.index_of_first(id@) {
            Some(j) => {
                assert(s[j] != id@);
            },
            None => {},
        }
    }
    None
}

/// The selection with `x` added when it is missing, or else its first
/// occurrence removed.
pub open spec fn toggled(s: Seq<Seq<char>>, x: Seq<char>) -> Seq<Seq<char>> {
    match s.index_of_first(x) {
        Some(i) => s.remove(i),
        None => s.push(x),
    }
}

/// Selects the vendor when it is not selected, else deselects it; the
/// selection stays in the order of vendor numbers.
pub fn toggle_vendor_selection(ids: &mut Vec<String>, vendor_id: String)
    ensures
        string_views(final(ids)@) == toggled(string_views(old(ids)@), vendor_id@).sort_by(
            text_order(),
        ),
{
    let ghost before = string_views(ids@);
    assert(before.len() == ids.len());
    proof {
        before.index_of_first_ensures(vendor_id@);
    }
    match position_of(ids, &vendor_id) {
        Some(p) => {
            ids.remove(p);
            assert(string_views(ids@) =~= before.remove(p as int));
            assert(before.index_of_first(vendor_id@) == Some(p as int));
        },
        None => {
            ids.push(vendor_id);
            assert(string_views(ids@) =~= before.push(vendor_id@));
            assert(before.index_of_first(vendor_id@) is None);
        },
    }
    assert(string_views(ids@) == toggled(before, vendor_id@));
    let mut current: Vec<String> = Vec::new();
    std::mem::swap(ids, &mut current);
    assert(string_views(current@) == toggled(before, vendor_id@));
    *ids = sort_texts(current);
}

/// The registered vendors that have no purchase, in the order of vendor
/// numbers: `all` are the registered vendors, `active` those with purchases.
pub fn vendors_without_purchases(all: Vec<String>, active: &Vec<String>) -> (r: Vec<String>)
    ensures
        string_views(r@) == string_views(all@).sort_by(text_order()).filter(
            |v: Seq<char>| !string_views(active@).contains(v),
        ),
{
    let sorted = sort_texts(all);
    let ghost pred = |v: Seq<char>| !string_views(active@).contains(v);
    let ghost sv = string_views(sorted@);
    let mut out: Vec<String> = Vec::new();
    let mut i: usize = 0;
    assert(sv.take(0).filter(pred) =~= Seq::<Seq<char>>::empty()) by {
        reveal_with_fuel(Seq::filter, 1);
    }
    while i < sorted.len()
        invariant
            i <= sorted@.len(),
            sv == string_views(sorted@),
            pred == (|v: Seq<char>| !string_views(active@).contains(v)),
            string_views(out@) == sv.take(i as int).filter(pred),
        decreases sorted.len() - i,
    {
        let found = position_of(active, &sorted[i]);
        proof {
            string_views(active@).index_of_first_ensures(sv[i as int]);
            sv.take(i as int).lemma_filter_push(sv[i as int], pred);
            assert(sv.take(i + 1) =~= sv.take(i as int).push(sv[i as int]));
        }
        if found.is_none() {
            let ghost before = string_views(out@);
            out.push(sorted[i].clone());
            assert(string_views(out@) =~= before.push(sv[i as int]));
        }
        i = i + 1;
    }
    assert(sv.take(sv.len() as int) =~= sv);
    out
}

/// Toggling a vendor twice leaves a selection as it was, and a vendor is
/// selected after a toggle exactly when it was not selected before; both for
/// a selection in order and without repeats, as every selection is.
pub proof fn lemma_toggle_twice(s: Seq<Seq<char>>, x: Seq<char>)
    requires
        sorted_by(s, text_order()),
        s.no_duplicates(),
    ensures
        toggled(s, x).sort_by(text_order()).contains(x) == !s.contains(x),
        toggled(toggled(s, x).sort_by(text_order()), x).sort_by(text_order()) == s,
{
    broadcast use vstd::seq_lib::group_to_multiset_ensures;
    broadcast use vstd::multiset::group_multiset_axioms;

    let o = text_order();
    lemma_text_order_total();
    let t1 = toggled(s, x);
    let t = t1.sort_by(o);
    t1.lemma_sort_by_ensures(o);
    s.index_of_first_ensures(x);
    if s.contains(x) {
        let i = s.index_of_first(x)->0;
        assert(t1 == s.remove(i));
        assert(s.to_multiset().count(x) == 1) by {
            s.lemma_multiset_has_no_duplicates();
        }
        assert(t.to_multiset().count(x) == 0);
        assert(!t.contains(x));
        t.index_of_first_ensures(x);
        let t2 = t.push(x);
        assert(toggled(t, x) == t2);
        assert(t2.to_multiset() =~= s.to_multiset());
        t2.lemma_sort_by_ensures(o);
        vstd::seq_lib::lemma_sorted_unique(t2.sort_by(o), s, o);
    } else {
        assert(t1 == s.push(x));
        assert(t.to_multiset().count(x) >= 1);
        assert(t.contains(x));
        t.index_of_first_ensures(x);
        let j = t.index_of_first(x)->0;
        let t2 = t.remove(j);
        assert(toggled(t, x) == t2);
        assert(t2.to_multiset() =~= s.to_multiset());
        t2.lemma_sort_by_ensures(o);
        vstd::seq_lib::lemma_sorted_unique(t2.sort_by(o), s, o);
    }
}

fn count_string(n: usize) -> (r: String)
    ensures
        r@ == decimal_text(n as nat),
{
    string_of(&decimal_chars(n as u64))
}

/// The line above the vendor list: how many vendors have purchases, how many
/// the filters show, and how many are selected.
pub open spec fn caption_spec(
    total: usize,
    shown: usize,
    selected: usize,
    filters_active: bool,
    entries: Seq<(String, JsonValue)>,
) -> Seq<char> {
    let t = |key: Seq<char>| lookup_text(entries, key);
    if filters_active {
        let showing = fill_template(
            t("vendor.filter_showing"@),
            seq![("shown"@, decimal_text(shown as nat)), ("total"@, decimal_text(total as nat))],
        );
        if selected > 0 {
            showing + " \u{b7} "@ + decimal_text(selected as nat) + " "@ + t(
                "vendor.vendors_selected_of"@,
            ) + " "@ + decimal_text(shown as nat) + " "@ + t("vendor.vendors"@)
        } else {
            showing + " "@ + t("vendor.click_vendors_hint"@)
        }
    } else if selected > 0 {
        decimal_text(selected as nat) + " "@ + t("vendor.vendors_selected_of"@) + " "@
            + decimal_text(total as nat) + " "@ + t("vendor.vendors_with_purchases"@)
    } else {
        decimal_text(total as nat) + " "@ + t("vendor.vendors_with_purchases"@) + " "@ + t(
            "vendor.click_vendors_hint"@,
        )
    }
}

/// The caption of the vendor list: `total` vendors with purchases, `shown`
/// of them under the filters, `selected` of them selected.
pub fn vendor_list_caption(
    total: usize,
    shown: usize,
    selected: usize,
    filters_active: bool,
    translations: &Translations,
) -> (r: String)
    ensures
        r@ == caption_spec(total, shown, selected, filters_active, translations.entries()),
{
    if filters_active {
        let mut params: Vec<(String, String)> = Vec::new();
        params.push((owned("shown"), count_string(shown)));
        params.push((owned("total"), count_string(total)));
        assert(pair_views(params@) =~= seq![
            ("shown"@, decimal_text(shown as nat)),
            ("total"@, decimal_text(total as nat)),
        ]);
        let mut r = translations.format("vendor.filter_showing", &params);
        if selected > 0 {
            append_str(&mut r, " \u{b7} ");
            append_str(&mut r, count_string(selected).as_str());
            append_str(&mut r, " ");
            append_str(&mut r, translations.get("vendor.vendors_selected_of").as_str());
            append_str(&mut r, " ");
            append_str(&mut r, count_string(shown).as_str());
            append_str(&mut r, " ");
            append_str(&mut r, translations.get("vendor.vendors").as_str());
        } else {
            append_str(&mut r, " ");
            append_str(&mut r, translations.get("vendor.click_vendors_hint").as_str());
        }
        r
    } else if selected > 0 {
        let mut r = count_string(selected);
        append_str(&mut r, " ");
        append_str(&mut r, translations.get("vendor.vendors_selected_of").as_str());
        append_str(&mut r, " ");
        append_str(&mut r, count_string(total).as_str());
        append_str(&mut r, " ");
        append_str(&mut r, translations.get("vendor.vendors_with_purchases").as_str());
        r
    } else {
        let mut r = count_string(total);
        append_str(&mut r, " ");
        append_str(&mut r, translations.get("vendor.vendors_with_purchases").as_str());
        append_str(&mut r, " ");
        append_str(&mut r, translations.get("vendor.click_vendors_hint").as_str());
        r
    }
}

/// The correction stored for a vendor: none when the amount is zero.
pub fn stored_correction(correction: DecimalValue) -> (r: Option<DecimalValue>)
    ensures
        r == (if correction.mantissa == 0 {
            None
        } else {
            Some(correction)
        }),
{
    if correction.mantissa == 0 {
        None
    } else {
        Some(correction)
    }
}

/// The key of the message for an empty list: no vendors at all, or no
/// vendor matching the search.
pub fn empty_list_message_key(search_query: &str) -> (r: &'static str)
    ensures
        r@ == (if trim_spec(search_query@).len() == 0 {
            "vendor.no_vendors"@
        } else {
            "common.no_results"@
        }),
{
    if trim_chars(&chars_of(search_query)).len() == 0 {
        "vendor.no_vendors"
    } else {
        "common.no_results"
    }
}

/// Zero, as a decimal.
pub open spec fn zero() -> DecimalValue {
    DecimalValue { mantissa: 0, scale: 0 }
}

/// The fee counted against a payout: none when it is waived.
pub open spec fn counted_fee(fee: DecimalValue, waived: bool) -> DecimalValue {
    if waived {
        zero()
    } else {
        fee
    }
}

/// The payout a vendor gets with the chosen fees waived: sales minus the fees
/// that still count.
pub open spec fn waived_payout_spec(
    sales_sum: DecimalValue,
    participation_fee: DecimalValue,
    sales_fee: DecimalValue,
    waive_participation: bool,
    waive_revenue: bool,
) -> DecimalValue {
    sub_spec(
        sub_spec(sales_sum, counted_fee(participation_fee, waive_participation)),
        counted_fee(sales_fee, waive_revenue),
    )
}

/// The payout the correction editor proposes when fees are waived.
pub fn waived_desired_payout(
    sales_sum: DecimalValue,
    participation_fee: DecimalValue,
    sales_fee: DecimalValue,
    waive_participation: bool,
    waive_revenue: bool,
) -> (r: DecimalValue)
    requires
        sub_exact(sales_sum, counted_fee(participation_fee, waive_participation)),
        sub_exact(
            sub_spec(sales_sum, counted_fee(participation_fee, waive_participation)),
            counted_fee(sales_fee, waive_revenue),
        ),
    ensures
        r == waived_payout_spec(
            sales_sum,
            participation_fee,
            sales_fee,
            waive_participation,
            waive_revenue,
        ),
{
    let zero_value = DecimalValue { mantissa: 0, scale: 0 };
    let p = if waive_participation {
        zero_value
    } else {
        participation_fee
    };
    let f = if waive_revenue {
        zero_value
    } else {
        sales_fee
    };
    decimal_sub(decimal_sub(sales_sum, p), f)
}

/// The correction that a desired payout means: the desired payout minus the
/// payout computed from the sales; the stored correction while the typed
/// payout is not a number.
pub fn computed_correction(
    desired: Result<DecimalValue, DecimalInputParseError>,
    base_total_revenue: DecimalValue,
    payout_correction: DecimalValue,
) -> (r: DecimalValue)
    requires
        desired matches Ok(d) ==> sub_exact(d, base_total_revenue),
    ensures
        r == (match desired {
            Ok(d) => sub_spec(d, base_total_revenue),
            Err(_) => payout_correction,
        }),
{
    match desired {
        Ok(d) => decimal_sub(d, base_total_revenue),
        Err(_) => payout_correction,
    }
}

/// The note saved with a correction: the trimmed text, none when blank.
pub fn correction_note(input: &str) -> (r: Option<String>)
    ensures
        trim_spec(input@).len() == 0 ==> r is None,
        trim_spec(input@).len() > 0 ==> (r matches Some(n) && n@ == trim_spec(input@)),
{
    let t = trim_chars(&chars_of(input));
    if t.len() == 0 {
        None
    } else {
        Some(string_of(&t))
    }
}

/// What a click on a vendor without purchases leads to.
#[derive(Debug, Clone, Copy, PartialEq, Eq, Structural)]
pub enum VendorDeleteClick {
    /// Mark the vendor for deletion.
    Arm,
    /// Ask to confirm deleting the vendor at this position of the list.
    Confirm(usize),
    /// The marked vendor is not in the list; nothing happens.
    NotFound,
}

/// A click on a vendor card: the first click marks the vendor, a click on the
/// marked vendor asks to confirm deleting it.
pub fn vendor_delete_click(armed: &Option<String>, vendor_id: &String, vendors_without: &Vec<
    String,
>) -> (r: VendorDeleteClick)
    ensures
        match armed {
            Some(a) if a@ == vendor_id@ => match string_views(vendors_without@).index_of_first(
                vendor_id@,
            ) {
                Some(i) => r == VendorDeleteClick::Confirm(i as usize),
                None => r == VendorDeleteClick::NotFound,
            },
            _ => r == VendorDeleteClick::Arm,
        },
{
    match armed {
        Some(a) => {
            if *a == *vendor_id {
                match position_of(vendors_without, vendor_id) {
                    Some(i) => VendorDeleteClick::Confirm(i),
                    None => VendorDeleteClick::NotFound,
                }
            } else {
                VendorDeleteClick::Arm
            }
        },
        None => VendorDeleteClick::Arm,
    }
}

} // verus!
