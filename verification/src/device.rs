//! Device identifiers and user-agent classification.
//!
//! A device identifier names the machine a backup or an error log comes from.
//! It is stored trimmed, is 3 to 50 bytes long and uses only ASCII letters,
//! digits, `-` and `_`.

use vstd::prelude::*;

use vstd::utf8::{encode_scalar, encode_utf8};

use crate::text::{
    append_str, chars_of, contains_seq, contains_str, is_ascii_alnum, is_ascii_alphanumeric,
    lower_chars, lower_seq, owned, string_of, string_of_range, trim_bounds, trim_chars, trim_spec,
    trim_str,
};

verus! {

pub const DEVICE_IDENTIFIER_MIN_LENGTH: usize = 3;

pub const DEVICE_IDENTIFIER_MAX_LENGTH: usize = 50;

/// Longest error text shown to the user, in bytes.
pub const ERROR_MESSAGE_MAX_LEN: usize = 140;

/// Number of UTF-8 bytes that encode `s`.
pub open spec fn byte_len(s: Seq<char>) -> nat {
    encode_utf8(s).len()
}

pub open spec fn is_identifier_char(c: char) -> bool {
    is_ascii_alnum(c) || c == '-' || c == '_'
}

pub open spec fn length_error_text() -> Seq<char> {
    "device identifier must be 3-50 characters"@
}

pub open spec fn charset_error_text() -> Seq<char> {
    "device identifier may only contain letters, numbers, hyphens, and underscores"@
}

/// What validating `value` gives: `None` when it is accepted, else the error text.
pub open spec fn identifier_error(value: Seq<char>) -> Option<Seq<char>> {
    let t = trim_spec(value);
    if byte_len(t) < DEVICE_IDENTIFIER_MIN_LENGTH || byte_len(t) > DEVICE_IDENTIFIER_MAX_LENGTH {
        Some(length_error_text())
    } else if !(forall|i: int| 0 <= i < t.len() ==> is_identifier_char(#[trigger] t[i])) {
        Some(charset_error_text())
    } else {
        None
    }
}

/// Normalizing is stable: the stored form of an identifier is accepted again
/// and normalizes to itself, and the verdict on any text is the verdict on its
/// trimmed form.
pub proof fn lemma_normalized_identifier_is_stable(value: Seq<char>)
    ensures
        identifier_error(trim_spec(value)) == identifier_error(value),
        trim_spec(trim_spec(value)) == trim_spec(value),
{
    crate::text::lemma_trim_idempotent(value);
}

/// Checks a device identifier: after trimming, 3 to 50 bytes of ASCII letters,
/// digits, hyphens and underscores.
pub fn validate_device_identifier(value: &str) -> (r: Result<(), String>)
    ensures
        match identifier_error(value@) {
            None => r is Ok,
            Some(msg) => r matches Err(e) && e@ == msg,
        },
{
    let chars = chars_of(value);
    let (start, end) = trim_bounds(&chars);
    let trimmed = trim_chars(&chars);
    let len = byte_len_capped(&trimmed, DEVICE_IDENTIFIER_MAX_LENGTH);
    if len < DEVICE_IDENTIFIER_MIN_LENGTH || len > DEVICE_IDENTIFIER_MAX_LENGTH {
        return Err(owned("device identifier must be 3-50 characters"));
    }
    let mut i: usize = start;
    while i < end
        invariant
            start <= i <= end <= chars.len(),
            chars@.subrange(start as int, end as int) == trim_spec(value@),
            DEVICE_IDENTIFIER_MIN_LENGTH <= byte_len(trim_spec(value@))
                <= DEVICE_IDENTIFIER_MAX_LENGTH,
            forall|k: int| start <= k < i ==> is_identifier_char(#[trigger] chars@[k]),
        decreases end - i,
    {
        let c = chars[i];
        if !(is_ascii_alphanumeric(c) || c == '-' || c == '_') {
            assert(trim_spec(value@)[i - start] == c);
            return Err(
                owned(
                    "device identifier may only contain letters, numbers, hyphens, and underscores",
                ),
            );
        }
        i = i + 1;
    }
    assert forall|k: int| 0 <= k < trim_spec(value@).len() implies is_identifier_char(
        #[trigger] trim_spec(value@)[k],
    ) by {
        assert(trim_spec(value@)[k] == chars@[start + k]);
    }
    Ok(())
}

/// The stored form of a device identifier: the trimmed text when it is valid.
pub fn normalize_device_identifier(value: &str) -> (r: Result<String, String>)
    ensures
        match identifier_error(value@) {
            None => r matches Ok(s) && s@ == trim_spec(value@),
            Some(msg) => r matches Err(e) && e@ == msg,
        },
{
    validate_device_identifier(value)?;
    let trimmed = trim_str(value);
    Ok(string_of(&trimmed))
}

/// Accepts a device identifier chosen by the user and gives the form that is
/// to be stored; the caller writes it to storage.
pub fn save_device_identifier(value: String) -> (r: Result<String, String>)
    ensures
        match identifier_error(value@) {
            None => r matches Ok(s) && s@ == trim_spec(value@),
            Some(msg) => r matches Err(e) && e@ == msg,
        },
{
    normalize_device_identifier(value.as_str())
}

/// The identifier found in storage, if there is one and it is valid.
pub fn load_device_identifier(stored: Option<String>) -> (r: Option<String>)
    ensures
        match stored {
            Some(v) => match identifier_error(v@) {
                None => r matches Some(s) && s@ == trim_spec(v@),
                Some(_) => r is None,
            },
            None => r is None,
        },
{
    match stored {
        Some(v) => match normalize_device_identifier(v.as_str()) {
            Ok(s) => Some(s),
            Err(_) => None,
        },
        None => None,
    }
}

/// The identifier to use: the stored one when it is valid, else `generated`.
/// The flag says whether `generated` was chosen and is to be stored.
pub fn load_or_create_device_identifier(stored: Option<String>, generated: String) -> (r: (
    String,
    bool,
))
    ensures
        match stored {
            Some(v) if identifier_error(v@) is None => r.0@ == trim_spec(v@) && !r.1,
            _ => r.0 == generated && r.1,
        },
{
    match load_device_identifier(stored) {
        Some(existing) => (existing, false),
        None => (generated, true),
    }
}

/// The identifier that a reset gives, from the sanitized `platform-browser`
/// text: that text, or `this-device` when nothing of it is left.
pub fn reset_device_identifier(sanitized_basis: String) -> (r: String)
    ensures
        sanitized_basis@.len() == 0 ==> r@ == "this-device"@,
        sanitized_basis@.len() > 0 ==> r == sanitized_basis,
{
    if sanitized_basis.as_str().is_empty() {
        owned("this-device")
    } else {
        sanitized_basis
    }
}

// ---------------------------------------------------------------------------
// User agents
// ---------------------------------------------------------------------------

pub open spec fn has(hay: Seq<char>, needle: &str) -> bool {
    contains_seq(hay, needle@)
}

/// The platform that a (lower-cased) user agent names.
pub open spec fn platform_of(ua: Seq<char>) -> Seq<char> {
    if has(ua, "windows") {
        "Windows"@
    } else if has(ua, "android") {
        "Android"@
    } else if has(ua, "iphone") || has(ua, "ipad") || has(ua, "ios") {
        "iOS"@
    } else if has(ua, "mac os") || has(ua, "macintosh") {
        "macOS"@
    } else if has(ua, "linux") {
        "Linux"@
    } else {
        "Unknown"@
    }
}

/// The browser that a (lower-cased) user agent names.
pub open spec fn browser_of(ua: Seq<char>) -> Seq<char> {
    if has(ua, "edg/") {
        "Edge"@
    } else if has(ua, "firefox/") {
        "Firefox"@
    } else if has(ua, "chrome/") {
        "Chrome"@
    } else if has(ua, "safari/") {
        "Safari"@
    } else {
        "Browser"@
    }
}

/// The operating system named in a user agent, matched without regard to
/// ASCII case.
pub fn detect_platform(user_agent: &str) -> (r: &'static str)
    ensures
        r@ == platform_of(lower_seq(user_agent@)),
{
    let lower = lower_chars(&chars_of(user_agent));
    if contains_str(&lower, "windows") {
        "Windows"
    } else if contains_str(&lower, "android") {
        "Android"
    } else if contains_str(&lower, "iphone") || contains_str(&lower, "ipad") || contains_str(
        &lower,
        "ios",
    ) {
        "iOS"
    } else if contains_str(&lower, "mac os") || contains_str(&lower, "macintosh") {
        "macOS"
    } else if contains_str(&lower, "linux") {
        "Linux"
    } else {
        "Unknown"
    }
}

/// The browser named in a user agent, matched without regard to ASCII case.
pub fn detect_browser(user_agent: &str) -> (r: &'static str)
    ensures
        r@ == browser_of(lower_seq(user_agent@)),
{
    let lower = lower_chars(&chars_of(user_agent));
    if contains_str(&lower, "edg/") {
        "Edge"
    } else if contains_str(&lower, "firefox/") {
        "Firefox"
    } else if contains_str(&lower, "chrome/") && !contains_str(&lower, "edg/") {
        "Chrome"
    } else if contains_str(&lower, "safari/") && !contains_str(&lower, "chrome/") {
        "Safari"
    } else {
        "Browser"
    }
}

/// `platform-browser` for a user agent, the text a default identifier is made from.
pub fn device_identifier_basis(user_agent: &str) -> (r: String)
    ensures
        r@ == platform_of(lower_seq(user_agent@)) + "-"@ + browser_of(lower_seq(user_agent@)),
{
    let mut s = owned(detect_platform(user_agent));
    append_str(&mut s, "-");
    append_str(&mut s, detect_browser(user_agent));
    s
}

// ---------------------------------------------------------------------------
// Error text for display
// ---------------------------------------------------------------------------

/// Number of UTF-8 bytes that encode `c`.
pub open spec fn char_width(c: char) -> nat {
    encode_scalar(c as u32).len()
}

proof fn lemma_encode_concat(a: Seq<char>, b: Seq<char>)
    ensures
        encode_utf8(a + b) == encode_utf8(a) + encode_utf8(b),
    decreases a.len(),
{
    if a.len() > 0 {
        assert((a + b).drop_first() =~= a.drop_first() + b);
        lemma_encode_concat(a.drop_first(), b);
        assert(encode_utf8(a + b) =~= encode_utf8(a) + encode_utf8(b));
    } else {
        assert(a + b =~= b);
        assert(encode_utf8(a) =~= Seq::<u8>::empty());
        assert(encode_utf8(a) + encode_utf8(b) =~= encode_utf8(b));
    }
}

pub proof fn lemma_byte_len_push(s: Seq<char>, c: char)
    ensures
        byte_len(s.push(c)) == byte_len(s) + char_width(c),
{
    lemma_encode_concat(s, seq![c]);
    assert(s.push(c) =~= s + seq![c]);
    assert(seq![c].drop_first() =~= Seq::<char>::empty());
    assert(encode_utf8(seq![c]) =~= encode_scalar(c as u32) + encode_utf8(Seq::<char>::empty()));
}

/// The UTF-8 length of `v`, or a number above `cap` when that length is above `cap`.
pub(crate) fn byte_len_capped(v: &Vec<char>, cap: usize) -> (r: usize)
    requires
        cap < usize::MAX - 4,
    ensures
        r <= cap ==> r == byte_len(v@),
        r > cap ==> byte_len(v@) > cap,
{
    let mut bytes: usize = 0;
    let mut i: usize = 0;
    while i < v.len() && bytes <= cap
        invariant
            i <= v.len(),
            cap < usize::MAX - 4,
            bytes <= cap + 4,
            bytes == byte_len(v@.take(i as int)),
        decreases v.len() - i,
    {
        proof {
            lemma_byte_len_push(v@.take(i as int), v@[i as int]);
            assert(v@.take(i as int).push(v@[i as int]) =~= v@.take(i + 1));
        }
        bytes = bytes + utf8_width(v[i]);
        i = i + 1;
    }
    proof {
        if i == v.len() {
            assert(v@.take(i as int) =~= v@);
        } else {
            lemma_byte_len_prefix(v@, i as int);
        }
    }
    bytes
}

proof fn lemma_byte_len_prefix(s: Seq<char>, k: int)
    requires
        0 <= k <= s.len(),
    ensures
        byte_len(s.take(k)) <= byte_len(s),
{
    lemma_encode_concat(s.take(k), s.skip(k));
    assert(s.take(k) + s.skip(k) =~= s);
}

fn utf8_width(c: char) -> (w: usize)
    ensures
        w == char_width(c),
        1 <= w <= 4,
{
    proof {
        vstd::utf8::char_is_scalar(c);
    }
    let code: u32 = c as u32;
    if code <= 0x7F {
        1
    } else if code <= 0x7FF {
        2
    } else if code <= 0xFFFF {
        3
    } else {
        4
    }
}

/// Number of leading characters of `s` that fit in `budget` bytes.
pub open spec fn chars_within(s: Seq<char>, budget: int) -> nat
    decreases s.len(),
{
    if s.len() == 0 || char_width(s[0]) > budget {
        0
    } else {
        1 + chars_within(s.drop_first(), budget - char_width(s[0]))
    }
}

pub open spec fn no_line_breaks(s: Seq<char>) -> Seq<char> {
    s.map_values(|c: char| if c == '\n' || c == '\r' { ' ' } else { c })
}

/// What is shown of an error's text: line breaks become spaces, and text over
/// 140 bytes keeps the characters that fit in its first 137 bytes, followed by
/// `...`.
pub open spec fn shortened_error_text(s: Seq<char>) -> Seq<char> {
    let f = no_line_breaks(s);
    if byte_len(f) > ERROR_MESSAGE_MAX_LEN {
        f.take(chars_within(f, (ERROR_MESSAGE_MAX_LEN - 3) as int) as int) + "..."@
    } else {
        f
    }
}

proof fn lemma_chars_within_step(s: Seq<char>, k: int, budget: int, used: int)
    requires
        0 <= k < s.len(),
        used == byte_len(s.take(k)),
        chars_within(s, budget) == k + chars_within(s.skip(k), budget - used),
    ensures
        char_width(s[k]) <= budget - used ==> chars_within(s, budget) == k + 1 + chars_within(
            s.skip(k + 1),
            budget - used - char_width(s[k]),
        ),
        char_width(s[k]) > budget - used ==> chars_within(s, budget) == k,
{
    assert(s.skip(k)[0] == s[k]);
    assert(s.skip(k).drop_first() =~= s.skip(k + 1));
}

/// Shortens an error's text for display.
pub fn shorten_error_text(text: &str) -> (r: String)
    ensures
        r@ == shortened_error_text(text@),
{
    let v = chars_of(text);
    let mut out: Vec<char> = Vec::new();
    let mut bytes: usize = 0;
    let mut i: usize = 0;
    while i < v.len()
        invariant
            i <= v.len(),
            v@ == text@,
            out@ == no_line_breaks(v@.take(i as int)),
            bytes <= ERROR_MESSAGE_MAX_LEN ==> bytes == byte_len(out@),
            bytes > ERROR_MESSAGE_MAX_LEN ==> byte_len(out@) > ERROR_MESSAGE_MAX_LEN,
            bytes <= ERROR_MESSAGE_MAX_LEN + 4,
        decreases v.len() - i,
    {
        let c = v[i];
        let d = if c == '\n' || c == '\r' {
            ' '
        } else {
            c
        };
        proof {
            lemma_byte_len_push(out@, d);
        }
        out.push(d);
        if bytes <= ERROR_MESSAGE_MAX_LEN {
            bytes = bytes + utf8_width(d);
        }
        i = i + 1;
        assert(out@ =~= no_line_breaks(v@.take(i as int)));
    }
    assert(v@.take(v.len() as int) =~= v@);
    let ghost f = out@;
    if bytes <= ERROR_MESSAGE_MAX_LEN {
        return string_of(&out);
    }
    let budget: usize = ERROR_MESSAGE_MAX_LEN - 3;
    let mut used: usize = 0;
    let mut k: usize = 0;
    assert(f.skip(0) =~= f);
    assert(f.take(0) =~= Seq::<char>::empty());
    while k < out.len() && utf8_width(out[k]) <= budget - used
        invariant
            out@ == f,
            k <= out.len(),
            used == byte_len(f.take(k as int)),
            used <= budget,
            budget == ERROR_MESSAGE_MAX_LEN - 3,
            chars_within(f, budget as int) == k + chars_within(f.skip(k as int), budget - used),
        decreases out.len() - k,
    {
        proof {
            lemma_chars_within_step(f, k as int, budget as int, used as int);
            lemma_byte_len_push(f.take(k as int), f[k as int]);
            assert(f.take(k as int).push(f[k as int]) =~= f.take(k + 1));
        }
        used = used + utf8_width(out[k]);
        k = k + 1;
    }
    proof {
        if k < out.len() {
            lemma_chars_within_step(f, k as int, budget as int, used as int);
        } else {
            assert(f.skip(k as int) =~= Seq::<char>::empty());
        }
    }
    let mut r = string_of_range(&out, 0, k);
    append_str(&mut r, "...");
    assert(out@.subrange(0, k as int) =~= f.take(k as int));
    r
}

/// The Debug text of `error`.
#[verifier::external_body]
fn debug_text<E: std::fmt::Debug>(error: &E) -> String {
    format!("{:?}", error)
}

/// Formats an error for display: its Debug text, shortened as
/// `shorten_error_text` does.
pub fn format_error_message<E: std::fmt::Debug>(error: &E) -> (r: String)
    ensures
        exists|d: Seq<char>| r@ == shortened_error_text(d),
{
    let text = debug_text(error);
    let r = shorten_error_text(text.as_str());
    assert(r@ == shortened_error_text(text@));
    r
}

} // verus!
