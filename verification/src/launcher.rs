//! The local launcher's decisions: which file a request path may serve, the
//! content type of a file, the headers of every response, and the handling of
//! the single-instance lock file.

use vstd::prelude::*;
use vstd::utf8::{decode_utf8, encode_utf8, valid_utf8};

use crate::text::{
    chars_eq_str, chars_of, join_chars, join_spec, lower_chars, lower_seq,
    owned, parse_unsigned, parse_unsigned_spec, split_chars, split_spec, string_of, trim_chars,
    trim_spec, views,
};

verus! {

// ---------------------------------------------------------------------------
// Percent-decoding of request paths
// ---------------------------------------------------------------------------

pub open spec fn hex_value(b: u8) -> Option<u8> {
    if 0x30 <= b && b <= 0x39 {
        Some((b - 0x30) as u8)
    } else if 0x41 <= b && b <= 0x46 {
        Some((b - 0x41 + 10) as u8)
    } else if 0x61 <= b && b <= 0x66 {
        Some((b - 0x61 + 10) as u8)
    } else {
        None
    }
}

/// Percent-decoding of bytes: `%` and two hex digits give one byte; every
/// other byte, a lone `%` included, stays as it is; `+` stays `+`.
pub open spec fn percent_decode_bytes(bs: Seq<u8>) -> Seq<u8>
    decreases bs.len(),
{
    if bs.len() == 0 {
        bs
    } else if bs[0] == 0x25 && bs.len() >= 3 && hex_value(bs[1]) is Some && hex_value(bs[2]) is Some {
        seq![(hex_value(bs[1])->0 * 16 + hex_value(bs[2])->0) as u8] + percent_decode_bytes(bs.skip(3))
    } else {
        seq![bs[0]] + percent_decode_bytes(bs.drop_first())
    }
}

/// The text that percent-decoding `s` gives, when the decoded bytes are UTF-8.
pub open spec fn url_decoded(s: Seq<char>) -> Option<Seq<char>> {
    let bytes = percent_decode_bytes(encode_utf8(s));
    if valid_utf8(bytes) {
        Some(decode_utf8(bytes))
    } else {
        None
    }
}

/// `urlencoding::decode`: percent-decodes the UTF-8 bytes of `s`; the result
/// is the text those bytes encode, or an error when they are not UTF-8.
#[verifier::external_body]
fn url_decode(s: &str) -> (r: Option<String>)
    ensures
        match url_decoded(s@) {
            Some(d) => r matches Some(t) && t@ == d,
            None => r is None,
        },
{
    match urlencoding::decode(s) {
        Ok(decoded) => Some(decoded.into_owned()),
        Err(_) => None,
    }
}

// ---------------------------------------------------------------------------
// Request paths
// ---------------------------------------------------------------------------

pub open spec fn index_html() -> Seq<char> {
    "index.html"@
}

pub open spec fn backslashes_to_slashes(s: Seq<char>) -> Seq<char> {
    s.map_values(|c: char| if c == '\\' { '/' } else { c })
}

/// `s` without its leading `/` characters.
pub open spec fn strip_slashes(s: Seq<char>) -> Seq<char>
    decreases s.len(),
{
    if s.len() > 0 && s[0] == '/' {
        strip_slashes(s.drop_first())
    } else {
        s
    }
}

/// The segments that name something: neither empty nor `.`.
pub open spec fn named_segments(segs: Seq<Seq<char>>) -> Seq<Seq<char>>
    decreases segs.len(),
{
    if segs.len() == 0 {
        segs
    } else if segs.last().len() == 0 || segs.last() == seq!['.'] {
        named_segments(segs.drop_last())
    } else {
        named_segments(segs.drop_last()).push(segs.last())
    }
}

/// The path below the application directory that a decoded request path
/// names: backslashes read as slashes, leading slashes dropped, empty and `.`
/// segments dropped; `index.html` for the root; none when any segment is `..`.
pub open spec fn sanitized_spec(decoded: Seq<char>) -> Option<Seq<char>> {
    let trimmed = strip_slashes(backslashes_to_slashes(decoded));
    if trimmed.len() == 0 {
        Some(index_html())
    } else if split_spec(trimmed, '/').contains(seq!['.', '.']) {
        None
    } else {
        let cleaned = named_segments(split_spec(trimmed, '/'));
        if cleaned.len() == 0 {
            Some(index_html())
        } else {
            Some(join_spec(cleaned, '/'))
        }
    }
}

/// What sanitizing a raw request path gives.
pub open spec fn sanitize_request_path_spec(request_path: Seq<char>) -> Option<Seq<char>> {
    match url_decoded(request_path) {
        Some(d) => sanitized_spec(d),
        None => None,
    }
}

fn is_dot_dot(s: &Vec<char>) -> (r: bool)
    ensures
        r == (s@ == seq!['.', '.']),
{
    let r = s.len() == 2 && s[0] == '.' && s[1] == '.';
    if r {
        assert(s@ =~= seq!['.', '.']);
    }
    r
}

fn leading_slashes_removed(d: &Vec<char>) -> (trimmed: Vec<char>)
    ensures
        trimmed@ == strip_slashes(backslashes_to_slashes(d@)),
{
    let mut norm: Vec<char> = Vec::new();
    let mut i: usize = 0;
    while i < d.len()
        invariant
            i <= d@.len(),
            norm@ == backslashes_to_slashes(d@.take(i as int)),
        decreases d.len() - i,
    {
        if d[i] == '\\' {
            norm.push('/');
        } else {
            norm.push(d[i]);
        }
        i = i + 1;
        assert(norm@ =~= backslashes_to_slashes(d@.take(i as int)));
    }
    assert(d@.take(d.len() as int) =~= d@);
    let mut s: usize = 0;
    assert(norm@.skip(0) =~= norm@);
    while s < norm.len() && norm[s] == '/'
        invariant
            s <= norm@.len(),
            strip_slashes(norm@) == strip_slashes(norm@.skip(s as int)),
        decreases norm.len() - s,
    {
        assert(norm@.skip(s as int).drop_first() =~= norm@.skip(s + 1));
        s = s + 1;
    }
    let mut trimmed: Vec<char> = Vec::new();
    let mut k = s;
    while k < norm.len()
        invariant
            s <= k <= norm@.len(),
            trimmed@ == norm@.subrange(s as int, k as int),
        decreases norm.len() - k,
    {
        trimmed.push(norm[k]);
        k = k + 1;
        assert(trimmed@ =~= norm@.subrange(s as int, k as int));
    }
    assert(trimmed@ =~= norm@.skip(s as int));
    trimmed
}

/// The path that a decoded request path names (see `sanitized_spec`).
pub fn sanitize_decoded_path(decoded: &str) -> (r: Option<String>)
    ensures
        match sanitized_spec(decoded@) {
            Some(p) => r matches Some(s) && s@ == p,
            None => r is None,
        },
{
    let d = chars_of(decoded);
    let trimmed = leading_slashes_removed(&d);
    if trimmed.len() == 0 {
        return Some(owned("index.html"));
    }
    let segments = split_chars(&trimmed, '/');
    let ghost segs = split_spec(trimmed@, '/');
    assert(views(segments@) =~= segs);
    let mut j: usize = 0;
    while j < segments.len()
        invariant
            j <= segments@.len(),
            views(segments@) == segs,
            segs == split_spec(trimmed@, '/'),
            trimmed@ == strip_slashes(backslashes_to_slashes(decoded@)),
            trimmed@.len() > 0,
            forall|m: int| 0 <= m < j ==> segs[m] != seq!['.', '.'],
        decreases segments.len() - j,
    {
        if is_dot_dot(&segments[j]) {
            assert(segs[j as int] == seq!['.', '.']);
            assert(segs.contains(seq!['.', '.']));
            return None;
        }
        j = j + 1;
    }
    assert(!segs.contains(seq!['.', '.']));
    let cleaned = named_segments_of(&trimmed);
    if cleaned.len() == 0 {
        Some(owned("index.html"))
    } else {
        let joined = join_chars(&cleaned, '/');
        Some(string_of(&joined))
    }
}

/// Maps a request path to a file path inside the application directory, or
/// `None` when it cannot be decoded or leads out of the directory.
pub fn sanitize_request_path(request_path: &str) -> (r: Option<String>)
    ensures
        match sanitize_request_path_spec(request_path@) {
            Some(p) => r matches Some(s) && s@ == p,
            None => r is None,
        },
{
    let decoded = match url_decode(request_path) {
        Some(d) => d,
        None => return None,
    };
    sanitize_decoded_path(decoded.as_str())
}

/// A relative path made only of named segments: no empty segment (so no
/// leading, doubled or trailing slash), no `.` and no `..`.
pub open spec fn stays_inside(p: Seq<char>) -> bool {
    forall|k: int|
        0 <= k < split_spec(p, '/').len() ==> {
            let seg = #[trigger] split_spec(p, '/')[k];
            seg.len() > 0 && seg != seq!['.'] && seg != seq!['.', '.']
        }
}

proof fn lemma_named_segments_from(segs: Seq<Seq<char>>)
    ensures
        forall|k: int|
            0 <= k < named_segments(segs).len() ==> {
                let n = #[trigger] named_segments(segs)[k];
                n.len() > 0 && n != seq!['.'] && segs.contains(n)
            },
    decreases segs.len(),
{
    if segs.len() > 0 {
        let init = segs.drop_last();
        lemma_named_segments_from(init);
        assert forall|k: int| 0 <= k < named_segments(segs).len() implies {
            let n = #[trigger] named_segments(segs)[k];
            n.len() > 0 && n != seq!['.'] && segs.contains(n)
        } by {
            let n = named_segments(segs)[k];
            if k < named_segments(init).len() {
                assert(n == named_segments(init)[k]);
                let w = choose|w: int| 0 <= w < init.len() && init[w] == n;
                assert(segs[w] == n);
            } else {
                assert(n == segs.last());
                assert(segs[segs.len() - 1] == n);
            }
        }
    }
}

/// Every path that a request is mapped to lies inside the application
/// directory: its segments are all named, none is `..`.
pub proof fn lemma_sanitized_path_stays_inside(request_path: Seq<char>)
    ensures
        match sanitize_request_path_spec(request_path) {
            Some(p) => stays_inside(p),
            None => true,
        },
{
    match url_decoded(request_path) {
        None => {},
        Some(d) => {
            let trimmed = strip_slashes(backslashes_to_slashes(d));
            reveal_strlit("index.html");
            assert(!index_html().contains('/')) by {
                if index_html().contains('/') {
                    let j = choose|j: int| 0 <= j < index_html().len() && index_html()[j] == '/';
                    assert(index_html()[j] != '/');
                }
            }
            crate::text::lemma_split_without_sep(index_html(), '/');
            assert(index_html().len() == 10);
            assert(index_html() != seq!['.'] && index_html() != seq!['.', '.']);
            if trimmed.len() > 0 && !split_spec(trimmed, '/').contains(seq!['.', '.']) {
                let segs = split_spec(trimmed, '/');
                let cleaned = named_segments(segs);
                if cleaned.len() > 0 {
                    lemma_named_segments_from(segs);
                    crate::text::lemma_split_pieces_lack_sep(trimmed, '/');
                    assert forall|k: int| 0 <= k < cleaned.len() implies !(
                    #[trigger] cleaned[k]).contains('/') by {
                        let w = choose|w: int| 0 <= w < segs.len() && segs[w] == cleaned[k];
                        assert(!segs[w].contains('/'));
                    }
                    crate::text::lemma_split_join(cleaned, '/');
                    assert forall|k: int| 0 <= k < cleaned.len() implies cleaned[k] != seq![
                        '.',
                        '.',
                    ] by {
                        if cleaned[k] == seq!['.', '.'] {
                            assert(segs.contains(cleaned[k]));
                        }
                    }
                }
            }
        },
    }
}

// ---------------------------------------------------------------------------
// File names and content types
// ---------------------------------------------------------------------------

/// The file name of a path (`Path::file_name`): its last segment that is
/// neither empty nor `.`, unless that is `..`.
pub open spec fn file_name_spec(path: Seq<char>) -> Option<Seq<char>> {
    let named = named_segments(split_spec(path, '/'));
    if named.len() == 0 || named.last() == seq!['.', '.'] {
        None
    } else {
        Some(named.last())
    }
}

/// Position of the last `.` in `s`, if any.
pub open spec fn last_dot(s: Seq<char>) -> Option<int>
    decreases s.len(),
{
    if s.len() == 0 {
        None
    } else if s.last() == '.' {
        Some(s.len() - 1)
    } else {
        last_dot(s.drop_last())
    }
}

/// The extension of a path (`Path::extension`): what follows the last `.` of
/// the file name, unless that `.` begins the name.
pub open spec fn extension_spec(path: Seq<char>) -> Option<Seq<char>> {
    match file_name_spec(path) {
        None => None,
        Some(name) => match last_dot(name) {
            Some(i) if i > 0 => Some(name.skip(i + 1)),
            _ => None,
        },
    }
}

proof fn lemma_last_dot(s: Seq<char>)
    ensures
        match last_dot(s) {
            Some(i) => 0 <= i < s.len() && s[i] == '.' && forall|k: int| i < k < s.len() ==> s[k]
                != '.',
            None => forall|k: int| 0 <= k < s.len() ==> s[k] != '.',
        },
    decreases s.len(),
{
    if s.len() > 0 && s.last() != '.' {
        let p = s.drop_last();
        lemma_last_dot(p);
        assert forall|k: int| 0 <= k < p.len() implies s[k] == p[k] by {}
    }
}

fn named_segments_of(path: &Vec<char>) -> (r: Vec<Vec<char>>)
    ensures
        views(r@) == named_segments(split_spec(path@, '/')),
{
    let segments = split_chars(path, '/');
    let ghost segs = split_spec(path@, '/');
    assert(views(segments@) =~= segs);
    let mut cleaned: Vec<Vec<char>> = Vec::new();
    let mut m: usize = 0;
    while m < segments.len()
        invariant
            m <= segments@.len(),
            views(segments@) == segs,
            views(cleaned@) == named_segments(segs.take(m as int)),
        decreases segments.len() - m,
    {
        assert(segs.take(m + 1).drop_last() =~= segs.take(m as int));
        assert(segs.take(m + 1).last() == segments@[m as int]@);
        let seg = &segments[m];
        let dot = seg.len() == 1 && seg[0] == '.';
        if dot {
            assert(seg@ =~= seq!['.']);
        } else {
            assert(seg@.len() != 1 || seg@[0] != '.');
            assert(seg@ != seq!['.']);
        }
        if seg.len() > 0 && !dot {
            cleaned.push(segments[m].clone());
            assert(views(cleaned@) =~= named_segments(segs.take(m + 1)));
        }
        m = m + 1;
    }
    assert(segs.take(segments.len() as int) =~= segs);
    cleaned
}

/// The extension of a path.
pub fn extension(path: &str) -> (r: Option<Vec<char>>)
    ensures
        match extension_spec(path@) {
            Some(e) => r matches Some(x) && x@ == e,
            None => r is None,
        },
{
    let p = chars_of(path);
    let named = named_segments_of(&p);
    if named.len() == 0 {
        return None;
    }
    let name = &named[named.len() - 1];
    assert(views(named@).last() == name@);
    if is_dot_dot(name) {
        return None;
    }
    proof {
        lemma_last_dot(name@);
    }
    let mut i = name.len();
    assert(name@.take(name@.len() as int) =~= name@);
    while i > 0 && name[i - 1] != '.'
        invariant
            i <= name@.len(),
            forall|k: int| i <= k < name@.len() ==> name@[k] != '.',
            last_dot(name@) == last_dot(name@.take(i as int)),
        decreases i,
    {
        assert(name@.take(i as int).drop_last() =~= name@.take(i - 1));
        i = i - 1;
    }
    if i <= 1 {
        proof {
            if i == 1 {
                assert(name@.take(1).last() == '.');
            }
        }
        return None;
    }
    assert(name@.take(i as int).last() == '.');
    assert(last_dot(name@) == Some((i - 1) as int));
    let mut ext: Vec<char> = Vec::new();
    let mut k = i;
    while k < name.len()
        invariant
            i <= k <= name@.len(),
            ext@ == name@.subrange(i as int, k as int),
        decreases name.len() - k,
    {
        ext.push(name[k]);
        k = k + 1;
        assert(ext@ =~= name@.subrange(i as int, k as int));
    }
    assert(ext@ =~= name@.skip(i as int));
    Some(ext)
}

/// Whether a path's file name has an extension.
pub fn has_extension(path: &str) -> (r: bool)
    ensures
        r == extension_spec(path@) is Some,
{
    extension(path).is_some()
}

/// The content type served for a file, by its extension.
pub open spec fn content_type_spec(path: Seq<char>) -> Seq<char> {
    match extension_spec(path) {
        Some(e) => if e == "html"@ {
            "text/html; charset=utf-8"@
        } else if e == "css"@ {
            "text/css; charset=utf-8"@
        } else if e == "js"@ || e == "mjs"@ {
            "application/javascript; charset=utf-8"@
        } else if e == "wasm"@ {
            "application/wasm"@
        } else if e == "json"@ {
            "application/json"@
        } else if e == "txt"@ {
            "text/plain; charset=utf-8"@
        } else if e == "svg"@ {
            "image/svg+xml"@
        } else if e == "png"@ {
            "image/png"@
        } else if e == "jpg"@ || e == "jpeg"@ {
            "image/jpeg"@
        } else if e == "ico"@ {
            "image/x-icon"@
        } else {
            "application/octet-stream"@
        },
        None => "application/octet-stream"@,
    }
}

/// The content type of a file to serve.
pub fn content_type(path: &str) -> (r: &'static str)
    ensures
        r@ == content_type_spec(path@),
{
    match extension(path) {
        Some(e) => if chars_eq_str(&e, "html") {
            "text/html; charset=utf-8"
        } else if chars_eq_str(&e, "css") {
            "text/css; charset=utf-8"
        } else if chars_eq_str(&e, "js") || chars_eq_str(&e, "mjs") {
            "application/javascript; charset=utf-8"
        } else if chars_eq_str(&e, "wasm") {
            "application/wasm"
        } else if chars_eq_str(&e, "json") {
            "application/json"
        } else if chars_eq_str(&e, "txt") {
            "text/plain; charset=utf-8"
        } else if chars_eq_str(&e, "svg") {
            "image/svg+xml"
        } else if chars_eq_str(&e, "png") {
            "image/png"
        } else if chars_eq_str(&e, "jpg") || chars_eq_str(&e, "jpeg") {
            "image/jpeg"
        } else if chars_eq_str(&e, "ico") {
            "image/x-icon"
        } else {
            "application/octet-stream"
        },
        None => "application/octet-stream",
    }
}

/// The type a file is served with, by its extension: scripts (`js`, `mjs`) as
/// JavaScript, pages as HTML, style sheets as CSS, WebAssembly modules, JSON,
/// plain text and the image formats as such, so that the browser runs the
/// bundled app under `nosniff`; a file without an extension is served as raw
/// bytes.
pub proof fn lemma_app_file_types(path: Seq<char>)
    ensures
        extension_spec(path) == Some("js"@) ==> content_type_spec(path)
            == "application/javascript; charset=utf-8"@,
        extension_spec(path) == Some("mjs"@) ==> content_type_spec(path)
            == "application/javascript; charset=utf-8"@,
        extension_spec(path) == Some("html"@) ==> content_type_spec(path)
            == "text/html; charset=utf-8"@,
        extension_spec(path) == Some("css"@) ==> content_type_spec(path)
            == "text/css; charset=utf-8"@,
        extension_spec(path) == Some("wasm"@) ==> content_type_spec(path) == "application/wasm"@,
        extension_spec(path) == Some("json"@) ==> content_type_spec(path) == "application/json"@,
        extension_spec(path) == Some("txt"@) ==> content_type_spec(path)
            == "text/plain; charset=utf-8"@,
        extension_spec(path) == Some("svg"@) ==> content_type_spec(path) == "image/svg+xml"@,
        extension_spec(path) == Some("png"@) ==> content_type_spec(path) == "image/png"@,
        extension_spec(path) == Some("jpg"@) ==> content_type_spec(path) == "image/jpeg"@,
        extension_spec(path) == Some("jpeg"@) ==> content_type_spec(path) == "image/jpeg"@,
        extension_spec(path) == Some("ico"@) ==> content_type_spec(path) == "image/x-icon"@,
        extension_spec(path) is None ==> content_type_spec(path) == "application/octet-stream"@,
{
    reveal_strlit("html");
    reveal_strlit("css");
    reveal_strlit("js");
    reveal_strlit("mjs");
    reveal_strlit("wasm");
    reveal_strlit("json");
    reveal_strlit("txt");
    reveal_strlit("svg");
    reveal_strlit("png");
    reveal_strlit("jpg");
    reveal_strlit("jpeg");
    reveal_strlit("ico");
    assert("html"@.len() == 4 && "html"@[0] == 'h');
    assert("css"@.len() == 3 && "css"@[0] == 'c');
    assert("js"@.len() == 2 && "js"@[0] == 'j');
    assert("mjs"@.len() == 3 && "mjs"@[0] == 'm');
    assert("wasm"@.len() == 4 && "wasm"@[0] == 'w');
    assert("json"@.len() == 4 && "json"@[0] == 'j' && "json"@[1] == 's');
    assert("txt"@.len() == 3 && "txt"@[0] == 't');
    assert("svg"@.len() == 3 && "svg"@[0] == 's');
    assert("png"@.len() == 3 && "png"@[0] == 'p');
    assert("jpg"@.len() == 3 && "jpg"@[0] == 'j');
    assert("jpeg"@.len() == 4 && "jpeg"@[0] == 'j' && "jpeg"@[1] == 'p');
    assert("ico"@.len() == 3 && "ico"@[0] == 'i');
}

/// Two paths with the same extension are served with the same type.
pub proof fn lemma_type_follows_extension(p: Seq<char>, q: Seq<char>)
    requires
        extension_spec(p) == extension_spec(q),
    ensures
        content_type_spec(p) == content_type_spec(q),
{
}

/// The files to try for a request, in order: the sanitized path, then, for a
/// path without extension, `index.html` (client-side routes). None when the
/// path is refused; nothing found means 404.
pub open spec fn serve_candidates_spec(request_path: Seq<char>) -> Seq<Seq<char>> {
    match sanitize_request_path_spec(request_path) {
        None => Seq::empty(),
        Some(p) => if extension_spec(p) is Some {
            seq![p]
        } else {
            seq![p, index_html()]
        },
    }
}

/// The files under the application directory to try for a request.
pub fn serve_candidates(request_path: &str) -> (r: Vec<String>)
    ensures
        r@.len() == serve_candidates_spec(request_path@).len(),
        forall|k: int|
            0 <= k < r@.len() ==> #[trigger] r@[k]@ == serve_candidates_spec(request_path@)[k],
{
    let mut r: Vec<String> = Vec::new();
    match sanitize_request_path(request_path) {
        None => r,
        Some(p) => {
            let ext = has_extension(p.as_str());
            r.push(p);
            if !ext {
                r.push(owned("index.html"));
            }
            r
        },
    }
}

// ---------------------------------------------------------------------------
// Responses
// ---------------------------------------------------------------------------

pub const CONTENT_SECURITY_POLICY: &'static str =
    "default-src 'self'; script-src 'self' 'unsafe-inline' 'unsafe-eval' 'wasm-unsafe-eval'; style-src 'self' 'unsafe-inline'; img-src 'self' data: blob:; font-src 'self' data:; connect-src 'self' ws: wss:; worker-src 'self'; object-src 'none'; base-uri 'none'; frame-ancestors 'none'; form-action 'self'";

pub const FRAME_OPTIONS: &'static str = "DENY";

pub const CONTENT_TYPE_OPTIONS: &'static str = "nosniff";

/// The headers of every response: its content type and the security headers.
pub fn response_headers(content_type: &str) -> (r: Vec<(String, String)>)
    ensures
        r@.len() == 4,
        r@[0].0@ == "Content-Type"@ && r@[0].1@ == content_type@,
        r@[1].0@ == "Content-Security-Policy"@ && r@[1].1@ == CONTENT_SECURITY_POLICY@,
        r@[2].0@ == "X-Content-Type-Options"@ && r@[2].1@ == CONTENT_TYPE_OPTIONS@,
        r@[3].0@ == "X-Frame-Options"@ && r@[3].1@ == FRAME_OPTIONS@,
{
    let mut r: Vec<(String, String)> = Vec::new();
    r.push((owned("Content-Type"), owned(content_type)));
    r.push((owned("Content-Security-Policy"), owned(CONTENT_SECURITY_POLICY)));
    r.push((owned("X-Content-Type-Options"), owned(CONTENT_TYPE_OPTIONS)));
    r.push((owned("X-Frame-Options"), owned(FRAME_OPTIONS)));
    r
}

// ---------------------------------------------------------------------------
// The single-instance lock
// ---------------------------------------------------------------------------

pub const LOCK_FILE_NAME: &'static str = "launcher.lock";

/// Attempts to create the lock file before giving up.
pub const MAX_LOCK_RETRIES: usize = 5;

/// First and last port tried for the local server.
pub const PORT_RANGE_START: u16 = 8080;

pub const PORT_RANGE_END: u16 = 8089;

pub open spec fn known_binary_names() -> Seq<Seq<char>> {
    seq![
        "ez-vend"@,
        "ez-vend.exe"@,
        "ez-vend-linux"@,
        "ez-vend-macos"@,
        "ez-vend-launcher"@,
        "ez-vend-launcher.exe"@,
    ]
}

/// The launcher is recognised under its own name, `ez-vend`, under that name
/// with `.exe`, and under the names of its platform builds, whatever the case
/// of the process name.
pub proof fn lemma_own_name_is_known(process_name: Seq<char>)
    requires
        lower_seq(process_name) == "ez-vend"@ || lower_seq(process_name) == "ez-vend.exe"@
            || lower_seq(process_name) == "ez-vend-linux"@ || lower_seq(process_name)
            == "ez-vend-macos"@ || lower_seq(process_name) == "ez-vend-launcher"@ || lower_seq(
            process_name,
        ) == "ez-vend-launcher.exe"@,
    ensures
        known_binary_names().contains(lower_seq(process_name)),
{
    let names = known_binary_names();
    let n = lower_seq(process_name);
    if n == "ez-vend"@ {
        assert(names[0] == n);
    } else if n == "ez-vend.exe"@ {
        assert(names[1] == n);
    } else if n == "ez-vend-linux"@ {
        assert(names[2] == n);
    } else if n == "ez-vend-macos"@ {
        assert(names[3] == n);
    } else if n == "ez-vend-launcher"@ {
        assert(names[4] == n);
    } else {
        assert(names[5] == n);
    }
}

/// Recognition ignores ASCII case: names equal up to case are recognised alike.
pub proof fn lemma_known_name_ignores_case(a: Seq<char>, b: Seq<char>)
    requires
        lower_seq(a) == lower_seq(b),
    ensures
        known_binary_names().contains(lower_seq(a)) == known_binary_names().contains(lower_seq(b)),
{
}

/// Whether a process name (compared in ASCII lower case) is one of the names
/// the launcher is shipped under.
pub fn is_known_binary_name(process_name: &str) -> (r: bool)
    ensures
        r == known_binary_names().contains(lower_seq(process_name@)),
{
    let n = lower_chars(&chars_of(process_name));
    let r = chars_eq_str(&n, "ez-vend") || chars_eq_str(&n, "ez-vend.exe") || chars_eq_str(
        &n,
        "ez-vend-linux",
    ) || chars_eq_str(&n, "ez-vend-macos") || chars_eq_str(&n, "ez-vend-launcher")
        || chars_eq_str(&n, "ez-vend-launcher.exe");
    proof {
        let names = known_binary_names();
        if r {
            if n@ == "ez-vend"@ {
                assert(names[0] == n@);
            } else if n@ == "ez-vend.exe"@ {
                assert(names[1] == n@);
            } else if n@ == "ez-vend-linux"@ {
                assert(names[2] == n@);
            } else if n@ == "ez-vend-macos"@ {
                assert(names[3] == n@);
            } else if n@ == "ez-vend-launcher"@ {
                assert(names[4] == n@);
            } else {
                assert(names[5] == n@);
            }
        } else {
            assert forall|k: int| 0 <= k < names.len() implies names[k] != n@ by {}
        }
    }
    r
}

/// The process id written in a lock file: its trimmed text as a `u32`.
pub fn parse_lock_pid(contents: &str) -> (r: Option<u32>)
    ensures
        match parse_unsigned_spec(trim_spec(contents@), u32::MAX as nat) {
            Some(n) => r == Some(n as u32),
            None => r is None,
        },
{
    let t = trim_chars(&chars_of(contents));
    match parse_unsigned(&t, u32::MAX as u64) {
        Some(n) => Some(n as u32),
        None => None,
    }
}

/// What to do with a lock file that already exists.
#[derive(Clone, Copy, Debug, PartialEq, Eq, Structural)]
pub enum ExistingLockAction {
    /// Its contents are not a process id: remove it.
    RemoveInvalid,
    /// Another launcher holds it: stop.
    ActiveInstance,
    /// The process that wrote it is gone: remove it.
    RemoveStale,
}

/// The action for an existing lock file, from the process id read from it and
/// whether a launcher process with that id is running.
pub fn existing_lock_action(pid: Option<u32>, pid_is_active_launcher: bool) -> (r:
    ExistingLockAction)
    ensures
        pid is None ==> r == ExistingLockAction::RemoveInvalid,
        pid is Some && pid_is_active_launcher ==> r == ExistingLockAction::ActiveInstance,
        pid is Some && !pid_is_active_launcher ==> r == ExistingLockAction::RemoveStale,
{
    match pid {
        None => ExistingLockAction::RemoveInvalid,
        Some(_) => if pid_is_active_launcher {
            ExistingLockAction::ActiveInstance
        } else {
            ExistingLockAction::RemoveStale
        },
    }
}

/// Whether another attempt to create the lock file follows attempt number
/// `attempt` (counted from 0) after the file was found to exist already.
pub fn retry_lock_creation(attempt: usize) -> (r: bool)
    ensures
        r == (attempt + 1 < MAX_LOCK_RETRIES),
{
    attempt < MAX_LOCK_RETRIES - 1
}

} // verus!
