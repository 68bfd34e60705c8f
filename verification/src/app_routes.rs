//! The application header: which page a path shows, by its title, and where
//! the import button appears.

use vstd::prelude::*;

use crate::text::chars_of;

verus! {

/// The path inside the application: `pathname` without the base path when it
/// starts with it, else `pathname` itself.
pub open spec fn route_path(pathname: Seq<char>, base: Seq<char>) -> Seq<char> {
    if base.len() <= pathname.len() && pathname.take(base.len() as int) == base {
        pathname.skip(base.len() as int)
    } else {
        pathname
    }
}

/// The translation key of a page's title, for the pages that show one.
pub open spec fn title_key_spec(path: Seq<char>) -> Option<Seq<char>> {
    if path == "/booths"@ {
        Some("booth.list_title"@)
    } else if path == "/vendors"@ {
        Some("vendor.list_title"@)
    } else if path == "/checkout"@ {
        Some("checkout.title"@)
    } else if path == "/settings"@ {
        Some("settings.title"@)
    } else {
        None
    }
}

fn route_of(pathname: &str, base: &str) -> (r: Vec<char>)
    ensures
        r@ == route_path(pathname@, base@),
{
    let p = chars_of(pathname);
    let b = chars_of(base);
    if b.len() <= p.len() {
        let mut k: usize = 0;
        while k < b.len()
            invariant
                b.len() <= p.len(),
                k <= b.len(),
                p@ == pathname@,
                b@ == base@,
                forall|j: int| 0 <= j < k ==> p@[j] == b@[j],
            decreases b.len() - k,
        {
            if p[k] != b[k] {
                assert(p@.take(b@.len() as int)[k as int] != b@[k as int]);
                return p;
            }
            k = k + 1;
        }
        assert(p@.take(b@.len() as int) =~= b@);
        let mut r: Vec<char> = Vec::new();
        let mut i: usize = b.len();
        while i < p.len()
            invariant
                b.len() <= i <= p.len(),
                p@ == pathname@,
                b@ == base@,
                r@ == p@.subrange(b.len() as int, i as int),
            decreases p.len() - i,
        {
            r.push(p[i]);
            i = i + 1;
            assert(r@ =~= p@.subrange(b.len() as int, i as int));
        }
        assert(p@.subrange(b.len() as int, p.len() as int) =~= p@.skip(b.len() as int));
        r
    } else {
        p
    }
}

/// The translation key of the title the header shows for `pathname`, under
/// the application's base path `base`; none for other pages.
pub fn view_title_key(pathname: &str, base: &str) -> (r: Option<&'static str>)
    ensures
        match title_key_spec(route_path(pathname@, base@)) {
            Some(k) => r matches Some(x) && x@ == k,
            None => r is None,
        },
{
    let path = route_of(pathname, base);
    if crate::text::chars_eq_str(&path, "/booths") {
        Some("booth.list_title")
    } else if crate::text::chars_eq_str(&path, "/vendors") {
        Some("vendor.list_title")
    } else if crate::text::chars_eq_str(&path, "/checkout") {
        Some("checkout.title")
    } else if crate::text::chars_eq_str(&path, "/settings") {
        Some("settings.title")
    } else {
        None
    }
}

/// Whether the header shows the import button: on the booth list only.
pub fn shows_import(pathname: &str, base: &str) -> (r: bool)
    ensures
        r == (route_path(pathname@, base@) == "/booths"@),
{
    let path = route_of(pathname, base);
    crate::text::chars_eq_str(&path, "/booths")
}

} // verus!
