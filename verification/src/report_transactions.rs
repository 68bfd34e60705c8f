//! The items of a vendor's report grouped by the purchase they belong to: one
//! line per transaction, in the order in which the transactions first occur in
//! the report, with the number of items and their total.

use vstd::prelude::*;

use crate::booth_form::DecimalValue;
use crate::decimal::{add_exact, add_spec, decimal_checked_add};

verus! {

/// What the grouping reads of a report item: the value of its transaction's
/// id and the amount.
#[derive(Clone, Copy, Debug, PartialEq, Eq, Structural)]
pub struct ReportItem {
    pub transaction_id: u128,
    pub amount: DecimalValue,
}

/// One transaction of a report.
#[derive(Clone, Copy, Debug, PartialEq, Eq, Structural)]
pub struct TransactionSummary {
    pub transaction_id: u128,
    /// Position in the report of the transaction's first item, whose time the
    /// line shows.
    pub first_item: usize,
    pub item_count: usize,
    /// The sum of the items' amounts; `None` where a partial sum is not exact
    /// in the decimal type.
    pub total: Option<DecimalValue>,
}

/// Zero at scale 0, where a sum starts.
pub open spec fn decimal_zero() -> DecimalValue {
    DecimalValue { mantissa: 0, scale: 0 }
}

/// The sum of `amounts`, added one by one from zero, while every step is exact.
pub open spec fn running_total(amounts: Seq<DecimalValue>) -> Option<DecimalValue>
    decreases amounts.len(),
{
    if amounts.len() == 0 {
        Some(decimal_zero())
    } else {
        match running_total(amounts.drop_last()) {
            Some(t) => if add_exact(t, amounts.last()) {
                Some(add_spec(t, amounts.last()))
            } else {
                None
            },
            None => None,
        }
    }
}

/// The transaction ids of `items`, each once, in the order of first occurrence.
pub open spec fn transaction_order(items: Seq<ReportItem>) -> Seq<u128>
    decreases items.len(),
{
    if items.len() == 0 {
        Seq::empty()
    } else {
        let earlier = transaction_order(items.drop_last());
        if earlier.contains(items.last().transaction_id) {
            earlier
        } else {
            earlier.push(items.last().transaction_id)
        }
    }
}

/// The amounts of the items of transaction `id`, in report order.
pub open spec fn amounts_of(items: Seq<ReportItem>, id: u128) -> Seq<DecimalValue>
    decreases items.len(),
{
    if items.len() == 0 {
        Seq::empty()
    } else {
        let earlier = amounts_of(items.drop_last(), id);
        if items.last().transaction_id == id {
            earlier.push(items.last().amount)
        } else {
            earlier
        }
    }
}

/// A transaction occurs in the order exactly when one of the items has its id,
/// and then it has amounts.
proof fn lemma_order_and_amounts(items: Seq<ReportItem>, id: u128)
    ensures
        transaction_order(items).contains(id) <==> exists|j: int|
            0 <= j < items.len() && #[trigger] items[j].transaction_id == id,
        transaction_order(items).contains(id) <==> amounts_of(items, id).len() > 0,
        amounts_of(items, id).len() <= items.len(),
    decreases items.len(),
{
    if items.len() > 0 {
        let earlier = items.drop_last();
        let last: int = items.len() - 1;
        let x = items[last].transaction_id;
        lemma_order_and_amounts(earlier, id);
        let before = transaction_order(earlier);
        assert(transaction_order(items).contains(id) <==> (before.contains(id) || x == id)) by {
            if !before.contains(x) {
                let pushed = before.push(x);
                assert(pushed[before.len() as int] == x);
                if before.contains(id) {
                    let i = before.index_of(id);
                    assert(pushed[i] == id);
                }
                if pushed.contains(id) {
                    let i = pushed.index_of(id);
                    if i < before.len() {
                        assert(before[i] == id);
                    }
                }
            }
        }
        assert((exists|j: int| 0 <= j < items.len() && #[trigger] items[j].transaction_id == id)
            <==> ((exists|j: int| 0 <= j < earlier.len() && #[trigger] earlier[j].transaction_id
            == id) || x == id)) by {
            if exists|j: int| 0 <= j < items.len() && #[trigger] items[j].transaction_id == id {
                let j = choose|j: int| 0 <= j < items.len() && #[trigger] items[j].transaction_id == id;
                if j < last {
                    assert(earlier[j].transaction_id == id);
                }
            }
            if exists|j: int| 0 <= j < earlier.len() && #[trigger] earlier[j].transaction_id == id {
                let j = choose|j: int| 0 <= j < earlier.len() && #[trigger] earlier[j].transaction_id == id;
                assert(items[j].transaction_id == id);
            }
            if x == id {
                assert(items[last].transaction_id == id);
            }
        }
    }
}

/// The number of items of the transactions `ids`, added up.
pub open spec fn items_counted(items: Seq<ReportItem>, ids: Seq<u128>) -> int
    decreases ids.len(),
{
    if ids.len() == 0 {
        0
    } else {
        items_counted(items, ids.drop_last()) + amounts_of(items, ids.last()).len()
    }
}

proof fn lemma_order_has_no_duplicates(items: Seq<ReportItem>)
    ensures
        transaction_order(items).no_duplicates(),
    decreases items.len(),
{
    if items.len() > 0 {
        let earlier = items.drop_last();
        lemma_order_has_no_duplicates(earlier);
        let before = transaction_order(earlier);
        let x = items.last().transaction_id;
        if !before.contains(x) {
            let pushed = before.push(x);
            assert forall|i: int, j: int|
                0 <= i < pushed.len() && 0 <= j < pushed.len() && i != j implies pushed[i]
                != pushed[j] by {
                if i == before.len() {
                    assert(before[j] != x);
                } else if j == before.len() {
                    assert(before[i] != x);
                } else {
                    assert(before[i] != before[j]);
                }
            }
        }
    }
}

/// Adding the last item to a report adds one to the count of its
/// transaction, where the transaction is listed once in `ids`.
proof fn lemma_counted_with_last_item(items: Seq<ReportItem>, ids: Seq<u128>)
    requires
        items.len() > 0,
        ids.no_duplicates(),
    ensures
        items_counted(items, ids) == items_counted(items.drop_last(), ids) + (if ids.contains(
            items.last().transaction_id,
        ) {
            1int
        } else {
            0int
        }),
    decreases ids.len(),
{
    if ids.len() > 0 {
        let rest = ids.drop_last();
        let x = items.last().transaction_id;
        assert(rest.no_duplicates()) by {
            assert forall|i: int, j: int|
                0 <= i < rest.len() && 0 <= j < rest.len() && i != j implies rest[i] != rest[j] by {
                assert(ids[i] != ids[j]);
            }
        }
        lemma_counted_with_last_item(items, rest);
        assert(ids.contains(x) <==> (rest.contains(x) || ids.last() == x)) by {
            if ids.contains(x) {
                let i = ids.index_of(x);
                if i < rest.len() {
                    assert(rest[i] == x);
                }
            }
            if rest.contains(x) {
                let i = rest.index_of(x);
                assert(ids[i] == x);
            }
        }
        if rest.contains(x) {
            let i = rest.index_of(x);
            assert(ids[i] == x);
            assert(ids.last() != x) by {
                assert(ids[ids.len() - 1] != ids[i]);
            }
        }
    }
}

/// Every item of a report belongs to exactly one of its transactions: the
/// item counts of the transactions add up to the number of items.
pub proof fn lemma_every_item_in_one_transaction(items: Seq<ReportItem>)
    ensures
        items_counted(items, transaction_order(items)) == items.len(),
    decreases items.len(),
{
    if items.len() > 0 {
        let earlier = items.drop_last();
        let x = items.last().transaction_id;
        let before = transaction_order(earlier);
        lemma_every_item_in_one_transaction(earlier);
        lemma_order_has_no_duplicates(earlier);
        lemma_order_and_amounts(earlier, x);
        lemma_counted_with_last_item(items, before);
        if !before.contains(x) {
            let pushed = before.push(x);
            assert(pushed.drop_last() =~= before);
            assert(amounts_of(items, x).len() == 1);
        }
    }
}

/// The transactions of a report, each with the position of its first item, its
/// number of items and their total, in the order in which they first occur.
pub fn group_report_items(items: &Vec<ReportItem>) -> (r: Vec<TransactionSummary>)
    ensures
        r.len() == transaction_order(items@).len(),
        forall|g: int|
            0 <= g < r.len() ==> {
                let id = #[trigger] r[g].transaction_id;
                &&& id == transaction_order(items@)[g]
                &&& r[g].item_count == amounts_of(items@, id).len()
                &&& r[g].total == running_total(amounts_of(items@, id))
                &&& r[g].first_item < items.len()
                &&& items@[r[g].first_item as int].transaction_id == id
                &&& forall|j: int| 0 <= j < r[g].first_item ==> items@[j].transaction_id != id
            },
        forall|a: int, b: int|
            0 <= a < b < r.len() ==> r[a].transaction_id != r[b].transaction_id,
{
    let mut groups: Vec<TransactionSummary> = Vec::new();
    let mut k: usize = 0;
    while k < items.len()
        invariant
            k <= items.len(),
            groups.len() == transaction_order(items@.take(k as int)).len(),
            forall|g: int|
                0 <= g < groups.len() ==> {
                    let id = #[trigger] groups[g].transaction_id;
                    &&& id == transaction_order(items@.take(k as int))[g]
                    &&& groups[g].item_count == amounts_of(items@.take(k as int), id).len()
                    &&& groups[g].total == running_total(amounts_of(items@.take(k as int), id))
                    &&& groups[g].first_item < k
                    &&& items@[groups[g].first_item as int].transaction_id == id
                    &&& forall|j: int|
                        0 <= j < groups[g].first_item ==> items@[j].transaction_id != id
                },
            forall|a: int, b: int|
                0 <= a < b < groups.len() ==> groups[a].transaction_id != groups[b].transaction_id,
        decreases items.len() - k,
    {
        let item = items[k];
        let id = item.transaction_id;
        let ghost before = items@.take(k as int);
        let ghost after = items@.take(k + 1);
        assert(after.drop_last() =~= before);
        assert(after.last() == item);
        let mut j: usize = 0;
        while j < groups.len() && groups[j].transaction_id != id
            invariant
                j <= groups.len(),
                forall|jj: int| 0 <= jj < j ==> groups[jj].transaction_id != id,
            decreases groups.len() - j,
        {
            j = j + 1;
        }
        proof {
            lemma_order_and_amounts(before, id);
        }
        if j < groups.len() {
            let old_group = groups[j];
            proof {
                assert(transaction_order(before)[j as int] == id);
                assert(transaction_order(before).contains(id));
                assert(transaction_order(after) == transaction_order(before));
                assert(amounts_of(after, id) == amounts_of(before, id).push(item.amount));
                assert(amounts_of(after, id).drop_last() =~= amounts_of(before, id));
            }
            let total = match old_group.total {
                Some(t) => decimal_checked_add(t, item.amount),
                None => None,
            };
            assert(amounts_of(after, id).last() == item.amount);
            assert(total == running_total(amounts_of(after, id)));
            let updated = TransactionSummary {
                transaction_id: id,
                first_item: old_group.first_item,
                item_count: old_group.item_count + 1,
                total,
            };
            groups.set(j, updated);
            assert forall|g: int| 0 <= g < groups.len() && g != j implies amounts_of(
                after,
                #[trigger] groups[g].transaction_id,
            ) == amounts_of(before, groups[g].transaction_id) by {
                assert(groups[g].transaction_id != id);
            }
        } else {
            proof {
                assert(!transaction_order(before).contains(id)) by {
                    if transaction_order(before).contains(id) {
                        let g = transaction_order(before).index_of(id);
                        assert(groups[g].transaction_id == id);
                    }
                }
                assert(transaction_order(after) == transaction_order(before).push(id));
                assert(amounts_of(before, id).len() == 0);
                assert(amounts_of(after, id) =~= seq![item.amount]);
                assert(amounts_of(after, id).drop_last() =~= Seq::<DecimalValue>::empty());
                assert forall|jj: int| 0 <= jj < k implies items@[jj].transaction_id != id by {
                    assert(before[jj] == items@[jj]);
                }
            }
            let total = decimal_checked_add(DecimalValue { mantissa: 0, scale: 0 }, item.amount);
            assert(running_total(Seq::<DecimalValue>::empty()) == Some(decimal_zero()));
            assert(amounts_of(after, id).last() == item.amount);
            assert(total == running_total(amounts_of(after, id)));
            groups.push(
                TransactionSummary { transaction_id: id, first_item: k, item_count: 1, total },
            );
            assert forall|g: int| 0 <= g < groups.len() - 1 implies amounts_of(
                after,
                #[trigger] groups[g].transaction_id,
            ) == amounts_of(before, groups[g].transaction_id) by {
                assert(groups[g].transaction_id != id);
            }
        }
        k = k + 1;
    }
    assert(items@.take(items.len() as int) =~= items@);
    groups
}

} // verus!
