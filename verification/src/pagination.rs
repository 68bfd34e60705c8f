//! Paging of lists: page counts, valid page numbers, navigation between
//! pages, the items on a page and the page sizes a user may choose.

use vstd::prelude::*;

use crate::text::{
    chars_of, decimal_chars, decimal_text, parse_unsigned, parse_unsigned_spec, replace_spec,
    replace_str, string_of,
};

use crate::translations::{lookup_text, Translations};

verus! {

/// The page sizes offered in every paginated view, ascending.
pub const PAGE_SIZE_OPTIONS: [usize; 5] = [5, 10, 20, 30, 50];

pub open spec fn is_page_size_option_spec(size: usize) -> bool {
    size == 5 || size == 10 || size == 20 || size == 30 || size == 50
}

/// Number of pages for `total_items` items, `page_size` per page (rounded up);
/// no pages when the page size is 0.
pub open spec fn total_pages_spec(total_items: int, page_size: int) -> int {
    if page_size == 0 {
        0
    } else {
        (total_items + page_size - 1) / page_size
    }
}

/// Computes the total number of pages.
pub fn compute_total_pages(total_items: usize, page_size: usize) -> (pages: usize)
    ensures
        pages == total_pages_spec(total_items as int, page_size as int),
{
    if page_size == 0 {
        return 0;
    }
    let q = total_items / page_size;
    let r = total_items % page_size;
    assert(r == 0 || q < usize::MAX) by (nonlinear_arith)
        requires
            page_size > 0,
            q == total_items / page_size,
            r == total_items % page_size,
            total_items <= usize::MAX,
    ;
    let pages = if r == 0 {
        q
    } else {
        q + 1
    };
    assert(pages == (total_items + page_size - 1) / (page_size as int)) by (nonlinear_arith)
        requires
            page_size > 0,
            q == total_items / page_size,
            r == total_items % page_size,
            r == 0 ==> pages == q,
            r != 0 ==> pages == q + 1,
    ;
    pages
}

/// `page` moved into the range of valid pages.
pub open spec fn clamp_page_spec(page: int, total_pages: int) -> int {
    if total_pages == 0 {
        0
    } else if page < total_pages - 1 {
        page
    } else {
        total_pages - 1
    }
}

/// Clamps a page number to the valid range `0..total_pages`.
pub fn clamp_page(page: usize, total_pages: usize) -> (r: usize)
    ensures
        r == clamp_page_spec(page as int, total_pages as int),
{
    if total_pages == 0 {
        0
    } else if page < total_pages - 1 {
        page
    } else {
        total_pages - 1
    }
}

/// The page that "next" leads to, when there is one.
pub fn next_page(current: usize, total_pages: usize) -> (r: Option<usize>)
    ensures
        current + 1 < total_pages ==> r == Some((current + 1) as usize),
        current + 1 >= total_pages ==> r is None,
{
    if current < total_pages && total_pages - current > 1 {
        Some(current + 1)
    } else {
        None
    }
}

/// The page that "previous" leads to, when there is one.
pub fn previous_page(current: usize) -> (r: Option<usize>)
    ensures
        current > 0 ==> r == Some((current - 1) as usize),
        current == 0 ==> r is None,
{
    if current > 0 {
        Some(current - 1)
    } else {
        None
    }
}

/// The page that "last" leads to, when there is one.
pub fn last_page(total_pages: usize) -> (r: Option<usize>)
    ensures
        total_pages > 0 ==> r == Some((total_pages - 1) as usize),
        total_pages == 0 ==> r is None,
{
    if total_pages > 0 {
        Some(total_pages - 1)
    } else {
        None
    }
}

/// Whether the "next" and "last" buttons are disabled.
pub fn is_at_last_page(current: usize, total_pages: usize) -> (r: bool)
    ensures
        r == (total_pages == 0 || current >= total_pages - 1),
{
    total_pages == 0 || current >= total_pages - 1
}

/// Whether `size` is one of the offered page sizes.
pub fn is_page_size_option(size: usize) -> (r: bool)
    ensures
        r == is_page_size_option_spec(size),
{
    let mut i: usize = 0;
    while i < 5
        invariant
            i <= 5,
            PAGE_SIZE_OPTIONS@ == seq![5usize, 10, 20, 30, 50],
            forall|k: int| 0 <= k < i ==> PAGE_SIZE_OPTIONS@[k] != size,
        decreases 5 - i,
    {
        if PAGE_SIZE_OPTIONS[i] == size {
            return true;
        }
        i = i + 1;
    }
    false
}

/// The page size to start with: the stored one when it is an offered size,
/// else `default_size`.
pub fn initial_page_size(stored: Option<usize>, default_size: usize) -> (r: usize)
    ensures
        r == (match stored {
            Some(s) if is_page_size_option_spec(s) => s,
            _ => default_size,
        }),
{
    match stored {
        Some(size) => if is_page_size_option(size) {
            size
        } else {
            default_size
        },
        None => default_size,
    }
}

/// A stored page size read back: a decimal number that fits in `usize`.
pub fn parse_page_size(value: &str) -> (r: Option<usize>)
    ensures
        match parse_unsigned_spec(value@, usize::MAX as nat) {
            Some(v) => r == Some(v as usize),
            None => r is None,
        },
{
    let v = chars_of(value);
    match parse_unsigned(&v, usize::MAX as u64) {
        Some(n) => Some(n as usize),
        None => None,
    }
}

/// The first index shown on `page`, and one past the last, for `len` items.
pub open spec fn page_bounds(len: int, page: int, page_size: int) -> (int, int) {
    let start = page * page_size;
    let end = if start + page_size < len {
        start + page_size
    } else {
        len
    };
    if start >= len {
        (len, len)
    } else {
        (start, end)
    }
}

/// The items shown on `page` (0-based): the slice starting at
/// `page * page_size`, at most `page_size` long; none past the end.
pub fn page_items<T: Clone>(items: &Vec<T>, page: usize, page_size: usize) -> (r: Vec<T>)
    requires
        page * page_size + page_size <= usize::MAX,
    ensures
        r@.len() == page_bounds(items@.len() as int, page as int, page_size as int).1
            - page_bounds(items@.len() as int, page as int, page_size as int).0,
        forall|k: int|
            0 <= k < r@.len() ==> cloned::<T>(
                items@[page_bounds(items@.len() as int, page as int, page_size as int).0 + k],
                #[trigger] r@[k],
            ),
{
    let start = page * page_size;
    let end = if start + page_size < items.len() {
        start + page_size
    } else {
        items.len()
    };
    let mut r: Vec<T> = Vec::new();
    if start >= items.len() {
        return r;
    }
    let mut i = start;
    while i < end
        invariant
            start <= i <= end <= items@.len(),
            start == page * page_size,
            end == page_bounds(items@.len() as int, page as int, page_size as int).1,
            start == page_bounds(items@.len() as int, page as int, page_size as int).0,
            r@.len() == i - start,
            forall|k: int| 0 <= k < r@.len() ==> cloned::<T>(items@[start + k], #[trigger] r@[k]),
        decreases end - i,
    {
        r.push(items[i].clone());
        i = i + 1;
    }
    r
}

/// The page line: the translated `template` with `{current}` (1-based),
/// `{total}` and `{count}` filled in.
pub open spec fn page_info_spec(
    template: Seq<char>,
    current_page: nat,
    total_pages: nat,
    total_items: nat,
) -> Seq<char> {
    replace_spec(
        replace_spec(
            replace_spec(template, "{current}"@, decimal_text(current_page + 1)),
            "{total}"@,
            decimal_text(total_pages),
        ),
        "{count}"@,
        decimal_text(total_items),
    )
}

/// Writes the page line, such as "Page 2 of 5 (43 entries)", from the
/// translation `<translation_prefix>.page_info`.
pub fn page_info_text(
    translation_prefix: &str,
    current_page: usize,
    total_pages: usize,
    total_items: usize,
    translations: &Translations,
) -> (r: String)
    requires
        current_page < usize::MAX,
    ensures
        r@ == page_info_spec(
            lookup_text(translations.entries(), translation_prefix@ + ".page_info"@),
            current_page as nat,
            total_pages as nat,
            total_items as nat,
        ),
{
    proof {
        reveal_strlit("{current}");
        reveal_strlit("{total}");
        reveal_strlit("{count}");
    }
    let mut key = crate::text::owned(translation_prefix);
    crate::text::append_str(&mut key, ".page_info");
    let template_text = translations.get(key.as_str());
    let template = template_text.as_str();
    let current = string_of(&decimal_chars((current_page + 1) as u64));
    let total = string_of(&decimal_chars(total_pages as u64));
    let count = string_of(&decimal_chars(total_items as u64));
    let a = replace_str(template, "{current}", current.as_str());
    let b = replace_str(a.as_str(), "{total}", total.as_str());
    replace_str(b.as_str(), "{count}", count.as_str())
}

/// Item `k` of a list is shown on page `k / page_size`, at position
/// `k % page_size`, and that page is a valid page of the list.
pub proof fn lemma_every_item_on_one_page(len: int, page_size: int, k: int)
    requires
        page_size > 0,
        0 <= k < len,
    ensures
        0 <= k / page_size < total_pages_spec(len, page_size),
        page_bounds(len, k / page_size, page_size).0 + k % page_size == k,
        page_bounds(len, k / page_size, page_size).0 <= k < page_bounds(
            len,
            k / page_size,
            page_size,
        ).1,
{
    let p = k / page_size;
    let r = k % page_size;
    assert(k == p * page_size + r && 0 <= r < page_size && p >= 0) by (nonlinear_arith)
        requires
            page_size > 0,
            k >= 0,
            p == k / page_size,
            r == k % page_size,
    ;
    assert(p < (len + page_size - 1) / page_size) by (nonlinear_arith)
        requires
            page_size > 0,
            k == p * page_size + r,
            0 <= r < page_size,
            k < len,
    ;
}

/// A clamped page is a valid page whenever there is a page at all, and a
/// valid page is left as it is.
pub proof fn lemma_clamp_page_valid(page: int, total_pages: int)
    requires
        page >= 0,
        total_pages >= 0,
    ensures
        total_pages > 0 ==> 0 <= clamp_page_spec(page, total_pages) < total_pages,
        page < total_pages ==> clamp_page_spec(page, total_pages) == page,
        clamp_page_spec(clamp_page_spec(page, total_pages), total_pages) == clamp_page_spec(
            page,
            total_pages,
        ),
{
}

/// Exactly enough pages: `page_size` times the page count covers every item,
/// and one page fewer would not.
pub proof fn lemma_total_pages_tight(total_items: int, page_size: int)
    requires
        total_items >= 0,
        page_size > 0,
    ensures
        total_pages_spec(total_items, page_size) * page_size >= total_items,
        (total_pages_spec(total_items, page_size) - 1) * page_size < total_items || total_items
            == 0,
{
    let n = total_pages_spec(total_items, page_size);
    assert(n * page_size >= total_items && ((n - 1) * page_size < total_items || total_items == 0))
        by (nonlinear_arith)
        requires
            total_items >= 0,
            page_size > 0,
            n == (total_items + page_size - 1) / page_size,
    ;
}

} // verus!
