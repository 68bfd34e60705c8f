use ez_vend::pagination::{
    clamp_page, compute_total_pages, initial_page_size, is_at_last_page, is_page_size_option,
    last_page, next_page, page_items, parse_page_size, previous_page, PAGE_SIZE_OPTIONS,
};

#[test]
fn test_page_size_options_are_sorted() {
    let mut sorted = PAGE_SIZE_OPTIONS;
    sorted.sort();
    assert_eq!(
        PAGE_SIZE_OPTIONS, sorted,
        "PAGE_SIZE_OPTIONS should be in ascending order"
    );
}

#[test]
fn test_page_size_options_contain_common_values() {
    assert!(PAGE_SIZE_OPTIONS.contains(&5));
    assert!(PAGE_SIZE_OPTIONS.contains(&10));
    assert!(PAGE_SIZE_OPTIONS.contains(&20));
    assert!(PAGE_SIZE_OPTIONS.contains(&30));
    assert!(PAGE_SIZE_OPTIONS.contains(&50));
}

#[test]
fn total_pages_round_up() {
    assert_eq!(compute_total_pages(0, 10), 0);
    assert_eq!(compute_total_pages(10, 10), 1);
    assert_eq!(compute_total_pages(11, 10), 2);
    assert_eq!(compute_total_pages(5, 0), 0);
    assert_eq!(compute_total_pages(usize::MAX, 2), usize::MAX / 2 + 1);
}

#[test]
fn pages_are_clamped() {
    assert_eq!(clamp_page(7, 3), 2);
    assert_eq!(clamp_page(1, 3), 1);
    assert_eq!(clamp_page(4, 0), 0);
}

#[test]
fn navigation_between_pages() {
    assert_eq!(next_page(0, 3), Some(1));
    assert_eq!(next_page(2, 3), None);
    assert_eq!(next_page(0, 0), None);
    assert_eq!(previous_page(0), None);
    assert_eq!(previous_page(2), Some(1));
    assert_eq!(last_page(3), Some(2));
    assert_eq!(last_page(0), None);
    assert!(is_at_last_page(2, 3));
    assert!(is_at_last_page(0, 0));
    assert!(!is_at_last_page(1, 3));
}

#[test]
fn stored_page_sizes_are_checked() {
    assert!(is_page_size_option(20));
    assert!(!is_page_size_option(25));
    assert_eq!(initial_page_size(Some(30), 10), 30);
    assert_eq!(initial_page_size(Some(25), 10), 10);
    assert_eq!(initial_page_size(None, 20), 20);
    assert_eq!(parse_page_size("50"), Some(50));
    assert_eq!(parse_page_size(" 50"), None);
    assert_eq!(parse_page_size("x"), None);
}

#[test]
fn page_items_slice_the_list() {
    let items: Vec<u32> = (0..23).collect();
    assert_eq!(page_items(&items, 0, 10), (0..10).collect::<Vec<u32>>());
    assert_eq!(page_items(&items, 2, 10), vec![20, 21, 22]);
    assert!(page_items(&items, 3, 10).is_empty());
    let mut all = Vec::new();
    for p in 0..compute_total_pages(items.len(), 5) {
        all.extend(page_items(&items, p, 5));
    }
    assert_eq!(all, items);
}
