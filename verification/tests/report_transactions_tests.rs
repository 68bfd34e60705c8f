use ez_vend::booth_form::DecimalValue;
use ez_vend::decimal::decimal_checked_add;
use ez_vend::report_transactions::{group_report_items, ReportItem, TransactionSummary};

fn dec(mantissa: i128, scale: u32) -> DecimalValue {
    DecimalValue { mantissa, scale }
}

fn item(transaction_id: u128, amount: DecimalValue) -> ReportItem {
    ReportItem { transaction_id, amount }
}

#[test]
fn items_group_by_transaction_in_first_order() {
    let items = vec![
        item(7, dec(150, 2)),
        item(3, dec(2, 0)),
        item(7, dec(25, 2)),
        item(9, dec(5, 0)),
        item(3, dec(1, 1)),
    ];
    let groups = group_report_items(&items);
    assert_eq!(
        groups,
        vec![
            TransactionSummary { transaction_id: 7, first_item: 0, item_count: 2, total: Some(dec(175, 2)) },
            TransactionSummary { transaction_id: 3, first_item: 1, item_count: 2, total: Some(dec(21, 1)) },
            TransactionSummary { transaction_id: 9, first_item: 3, item_count: 1, total: Some(dec(5, 0)) },
        ]
    );
    let counted: usize = groups.iter().map(|g| g.item_count).sum();
    assert_eq!(counted, items.len());
}

#[test]
fn no_items_no_transactions() {
    assert!(group_report_items(&Vec::new()).is_empty());
}

#[test]
fn a_total_beyond_the_decimal_range_is_none() {
    let big = dec((1i128 << 96) - 1, 0);
    let groups = group_report_items(&vec![item(1, big), item(1, big), item(2, big)]);
    assert_eq!(groups.len(), 2);
    assert_eq!(groups[0].item_count, 2);
    assert_eq!(groups[0].total, None);
    assert_eq!(groups[1].total, Some(big));
}

#[test]
fn decimal_addition_aligns_scales() {
    assert_eq!(decimal_checked_add(dec(150, 2), dec(3, 1)), Some(dec(180, 2)));
    assert_eq!(decimal_checked_add(dec(-5, 0), dec(5, 0)), Some(dec(0, 0)));
    assert_eq!(decimal_checked_add(dec(1, 29), dec(1, 0)), None);
    assert_eq!(decimal_checked_add(dec(1i128 << 95, 0), dec(1i128 << 95, 0)), None);
}
