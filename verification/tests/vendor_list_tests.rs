use ez_vend::booth_form::{DecimalInputParseError, DecimalValue};
use ez_vend::decimal::decimal_sub;
use ez_vend::text_order::{sort_texts, text_le};
use ez_vend::translations::{JsonValue, Translations};
use ez_vend::vendor_list::{
    computed_correction, correction_note, count_corrected, count_non_positive, empty_list_message_key, filter_vendor_ids,
    filter_vendor_reports, has_correction, matches_search, search_key, stored_correction,
    toggle_vendor_selection, vendor_delete_click, vendor_list_caption, vendors_without_purchases,
    waived_desired_payout, VendorDeleteClick, VendorReportLine,
};

fn dec(mantissa: i128, scale: u32) -> DecimalValue {
    DecimalValue { mantissa, scale }
}

fn line(id: &str, revenue: i128, correction: i128, note: Option<&str>) -> VendorReportLine {
    VendorReportLine {
        vendor_id: id.to_string(),
        total_revenue: dec(revenue, 2),
        payout_correction: dec(correction, 2),
        payout_correction_note: note.map(|n| n.to_string()),
    }
}

fn strings(v: &[&str]) -> Vec<String> {
    v.iter().map(|s| s.to_string()).collect()
}

#[test]
fn strings_sort_by_character() {
    assert!(text_le("A1", "A2"));
    assert!(text_le("A", "AB"));
    assert!(!text_le("AB", "A"));
    assert!(text_le("", ""));
    assert!(text_le("Z", "a"));
    assert!(!text_le("b", "B"));
    assert_eq!(
        sort_texts(strings(&["v10", "V2", "v1", "", "v10", "ä"])),
        strings(&["", "V2", "v1", "v10", "v10", "ä"])
    );
    let mut expected = strings(&["v10", "V2", "v1", "", "ä"]);
    expected.sort();
    assert_eq!(sort_texts(strings(&["v10", "V2", "v1", "", "ä"])), expected);
}

#[test]
fn selection_toggles_and_stays_sorted() {
    let mut ids: Vec<String> = Vec::new();
    toggle_vendor_selection(&mut ids, "B7".to_string());
    toggle_vendor_selection(&mut ids, "A3".to_string());
    toggle_vendor_selection(&mut ids, "C1".to_string());
    assert_eq!(ids, strings(&["A3", "B7", "C1"]));
    toggle_vendor_selection(&mut ids, "B7".to_string());
    assert_eq!(ids, strings(&["A3", "C1"]));
    toggle_vendor_selection(&mut ids, "B7".to_string());
    toggle_vendor_selection(&mut ids, "B7".to_string());
    assert_eq!(ids, strings(&["A3", "C1"]));
    let mut unsorted = strings(&["Z", "A", "M"]);
    toggle_vendor_selection(&mut unsorted, "A".to_string());
    assert_eq!(unsorted, strings(&["M", "Z"]));
}

#[test]
fn reports_are_filtered() {
    let reports = vec![
        line("A1", 1000, 0, None),
        line("A2", 0, 0, None),
        line("b3", -500, 250, None),
        line("B4", 700, 0, Some("  note ")),
        line("C5", 800, 0, Some("   ")),
    ];
    let ids = |v: &Vec<VendorReportLine>| v.iter().map(|l| l.vendor_id.clone()).collect::<Vec<_>>();
    assert_eq!(ids(&filter_vendor_reports(&reports, false, false, "")), strings(&["A1", "A2", "b3", "B4", "C5"]));
    assert_eq!(ids(&filter_vendor_reports(&reports, true, false, "")), strings(&["A2", "b3"]));
    assert_eq!(ids(&filter_vendor_reports(&reports, false, true, "")), strings(&["b3", "B4"]));
    assert_eq!(ids(&filter_vendor_reports(&reports, true, true, "")), strings(&["b3"]));
    assert_eq!(ids(&filter_vendor_reports(&reports, false, false, "  b ")), strings(&["b3", "B4"]));
    assert_eq!(ids(&filter_vendor_reports(&reports, false, false, "x")), Vec::<String>::new());
    assert_eq!(count_non_positive(&reports), 2);
    assert_eq!(count_corrected(&reports), 2);
    assert!(has_correction(&reports[2]));
    assert!(!has_correction(&reports[4]));
}

#[test]
fn search_matches_lowercased_vendor_numbers() {
    assert_eq!(search_key("  AbC "), "abc");
    assert_eq!(search_key("ÄÖ"), "äö");
    assert!(matches_search("abc12", "c1"));
    assert!(matches_search("abc12", ""));
    assert!(!matches_search("abc12", "C1"));
    assert_eq!(
        filter_vendor_ids(&strings(&["AB1", "ab2", "C3"]), " aB "),
        strings(&["AB1", "ab2"])
    );
    assert_eq!(filter_vendor_ids(&strings(&["AB1", "C3"]), ""), strings(&["AB1", "C3"]));
}

#[test]
fn vendors_without_purchases_are_sorted() {
    let all = strings(&["V3", "V1", "V2", "V4"]);
    let active = strings(&["V2", "V4"]);
    assert_eq!(vendors_without_purchases(all, &active), strings(&["V1", "V3"]));
    assert_eq!(vendors_without_purchases(Vec::new(), &active), Vec::<String>::new());
}

fn vendor_texts() -> Translations {
    Translations::from_entries(vec![(
        "vendor".to_string(),
        JsonValue::Object(vec![
            (
                "filter_showing".to_string(),
                JsonValue::String("{shown} von {total} angezeigt".to_string()),
            ),
            ("vendors_selected_of".to_string(), JsonValue::String("ausgewählt von".to_string())),
            ("vendors".to_string(), JsonValue::String("Verkäufern".to_string())),
            (
                "vendors_with_purchases".to_string(),
                JsonValue::String("Verkäufern mit Verkäufen".to_string()),
            ),
            ("click_vendors_hint".to_string(), JsonValue::String("(klicken)".to_string())),
        ]),
    )])
}

#[test]
fn list_captions() {
    let t = vendor_texts();
    assert_eq!(vendor_list_caption(12, 12, 0, false, &t), "12 Verkäufern mit Verkäufen (klicken)");
    assert_eq!(
        vendor_list_caption(12, 12, 3, false, &t),
        "3 ausgewählt von 12 Verkäufern mit Verkäufen"
    );
    assert_eq!(vendor_list_caption(12, 4, 0, true, &t), "4 von 12 angezeigt (klicken)");
    assert_eq!(
        vendor_list_caption(12, 4, 2, true, &t),
        "4 von 12 angezeigt · 2 ausgewählt von 4 Verkäufern"
    );
}

#[test]
fn corrections_and_empty_states() {
    assert_eq!(stored_correction(dec(0, 2)), None);
    assert_eq!(stored_correction(dec(-150, 2)), Some(dec(-150, 2)));
    assert_eq!(empty_list_message_key("   "), "vendor.no_vendors");
    assert_eq!(empty_list_message_key(" x "), "common.no_results");
}

#[test]
fn decimal_differences() {
    assert_eq!(decimal_sub(dec(1050, 2), dec(3, 1)), dec(1020, 2));
    assert_eq!(decimal_sub(dec(5, 0), dec(125, 2)), dec(375, 2));
    assert_eq!(decimal_sub(dec(-2, 0), dec(-2, 0)), dec(0, 0));
    assert_eq!(decimal_sub(dec(1, 28), dec(0, 0)), dec(1, 28));
}

#[test]
fn correction_editor() {
    let sales = dec(10000, 2);
    let participation = dec(1500, 2);
    let share = dec(1000, 2);
    assert_eq!(waived_desired_payout(sales, participation, share, false, false), dec(7500, 2));
    assert_eq!(waived_desired_payout(sales, participation, share, true, false), dec(9000, 2));
    assert_eq!(waived_desired_payout(sales, participation, share, false, true), dec(8500, 2));
    assert_eq!(waived_desired_payout(sales, participation, share, true, true), dec(10000, 2));
    assert_eq!(computed_correction(Ok(dec(80, 0)), dec(7500, 2), dec(0, 0)), dec(500, 2));
    assert_eq!(
        computed_correction(Err(DecimalInputParseError::InvalidFormat), dec(7500, 2), dec(-250, 2)),
        dec(-250, 2)
    );
    assert_eq!(correction_note("   "), None);
    assert_eq!(correction_note("  waived fee "), Some("waived fee".to_string()));
}

#[test]
fn deleting_vendors_takes_two_clicks() {
    let without = strings(&["V1", "V3"]);
    assert_eq!(vendor_delete_click(&None, &"V3".to_string(), &without), VendorDeleteClick::Arm);
    assert_eq!(
        vendor_delete_click(&Some("V1".to_string()), &"V3".to_string(), &without),
        VendorDeleteClick::Arm
    );
    assert_eq!(
        vendor_delete_click(&Some("V3".to_string()), &"V3".to_string(), &without),
        VendorDeleteClick::Confirm(1)
    );
    assert_eq!(
        vendor_delete_click(&Some("V9".to_string()), &"V9".to_string(), &without),
        VendorDeleteClick::NotFound
    );
}
