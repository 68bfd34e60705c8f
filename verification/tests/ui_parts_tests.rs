use ez_vend::error_logging::{usable_stack_trace, ErrorLogDraft};
use ez_vend::inputs::{AmountInputMode, InputType, KeyboardKey};
use ez_vend::tab_group::{is_active_tab, panel_ids, tab_after_key, tab_position, TabItem};

fn tabs(ids: &[&str]) -> Vec<TabItem> {
    ids.iter()
        .map(|id| TabItem { id: id.to_string(), label: id.to_uppercase(), has_error: false })
        .collect()
}

#[test]
fn keyboard_moves_between_tabs() {
    assert_eq!(tab_after_key(0, 3, "ArrowRight"), Some(1));
    assert_eq!(tab_after_key(2, 3, "ArrowRight"), Some(0));
    assert_eq!(tab_after_key(0, 3, "ArrowLeft"), Some(2));
    assert_eq!(tab_after_key(2, 3, "ArrowLeft"), Some(1));
    assert_eq!(tab_after_key(9, 3, "ArrowLeft"), Some(1));
    assert_eq!(tab_after_key(9, 3, "ArrowRight"), Some(0));
    assert_eq!(tab_after_key(1, 3, "Home"), Some(0));
    assert_eq!(tab_after_key(1, 3, "End"), Some(2));
    assert_eq!(tab_after_key(1, 3, "Tab"), None);
    assert_eq!(tab_after_key(0, 0, "ArrowRight"), None);
    assert_eq!(tab_after_key(0, 1, "ArrowLeft"), Some(0));
}

#[test]
fn tabs_and_panels() {
    let group = tabs(&["basic", "validation", "omissions"]);
    assert_eq!(tab_position(&group, "validation"), Some(1));
    assert_eq!(tab_position(&group, "other"), None);
    assert!(is_active_tab(&group, "omissions", 2));
    assert!(!is_active_tab(&group, "omissions", 1));
    assert!(!is_active_tab(&group, "other", 0));
    assert_eq!(panel_ids(&group, 1), ("panel-validation".to_string(), "tab-validation".to_string()));
    assert_eq!(panel_ids(&group, 7), ("panel-omissions".to_string(), "tab-omissions".to_string()));
    assert_eq!(panel_ids(&Vec::new(), 0), ("panel-empty".to_string(), "tab-empty".to_string()));
}

#[test]
fn input_kinds() {
    assert_eq!(InputType::Number.as_str(), "number");
    assert_eq!(InputType::Date.as_str(), "date");
    assert_eq!(AmountInputMode::default(), AmountInputMode::Regular);
    assert_eq!(AmountInputMode::RightToLeft.indicator(), "0.0_|");
    assert_eq!(AmountInputMode::Regular.indicator(), "_|");
    assert_eq!(AmountInputMode::RightToLeft.tooltip_key(), "checkout.keyboard_mode_tooltip_rtl");
    assert_ne!(KeyboardKey::Digit(7), KeyboardKey::Digit(8));
}

#[test]
fn error_drafts() {
    let draft = ErrorLogDraft::default();
    assert!(draft.error_type.is_empty() && draft.details.is_empty() && draft.route.is_none());
    assert_eq!(usable_stack_trace(None), None);
    assert_eq!(usable_stack_trace(Some("  \n".to_string())), None);
    assert_eq!(usable_stack_trace(Some("at f (x.js:1)".to_string())), Some("at f (x.js:1)".to_string()));
}

#[test]
fn tab_item_can_be_constructed() {
    let tab = TabItem { id: "basic".to_string(), label: "Basic".to_string(), has_error: false };
    assert_eq!(tab.id, "basic");
    assert_eq!(tab.label, "Basic");
    assert!(!tab.has_error);
}
