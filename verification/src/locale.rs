//! Supported locales and their codes.

use vstd::prelude::*;

use crate::text::{chars_eq_str, chars_of, starts_with_chars};

verus! {

/// Supported locales with regional variants.
#[derive(Debug, Clone, Copy, PartialEq, Eq, Structural)]
pub enum Locale {
    /// German, the fallback for any unknown locale.
    De,
    /// Germany.
    DeDE,
    /// Austria.
    DeAT,
    /// Switzerland (and Liechtenstein).
    DeCH,
    /// English.
    En,
    /// United States.
    EnUS,
    /// United Kingdom.
    EnGB,
    /// English speakers in Europe.
    EnEU,
}

pub open spec fn is_german(l: Locale) -> bool {
    l is De || l is DeDE || l is DeAT || l is DeCH
}

/// The language code of a locale, which selects its translation file.
pub open spec fn language_code(l: Locale) -> Seq<char> {
    if is_german(l) {
        "de"@
    } else {
        "en"@
    }
}

/// The full code of a locale, as it is persisted.
pub open spec fn full_code_spec(l: Locale) -> Seq<char> {
    match l {
        Locale::De => "de"@,
        Locale::DeDE => "de-DE"@,
        Locale::DeAT => "de-AT"@,
        Locale::DeCH => "de-CH"@,
        Locale::En => "en"@,
        Locale::EnUS => "en-US"@,
        Locale::EnGB => "en-GB"@,
        Locale::EnEU => "en-EU"@,
    }
}

pub open spec fn begins_with(s: Seq<char>, p: Seq<char>) -> bool {
    p.len() <= s.len() && s.take(p.len() as int) == p
}

/// The locale that a code denotes: the regional variants by their codes, any
/// other code beginning with `en` or `de` the language, anything else German.
pub open spec fn locale_of(s: Seq<char>) -> Locale {
    if s == "en-US"@ {
        Locale::EnUS
    } else if s == "en-GB"@ {
        Locale::EnGB
    } else if s == "en-IE"@ || s == "en-MT"@ || s == "en-EU"@ {
        Locale::EnEU
    } else if s == "de-DE"@ {
        Locale::DeDE
    } else if s == "de-AT"@ {
        Locale::DeAT
    } else if s == "de-CH"@ || s == "de-LI"@ {
        Locale::DeCH
    } else if begins_with(s, "en"@) {
        Locale::En
    } else if begins_with(s, "de"@) {
        Locale::De
    } else {
        Locale::De
    }
}

impl Locale {
    /// The language code, `de` or `en`.
    pub fn as_str(&self) -> (r: &'static str)
        ensures
            r@ == language_code(*self),
    {
        match self {
            Locale::De | Locale::DeDE | Locale::DeAT | Locale::DeCH => "de",
            Locale::En | Locale::EnUS | Locale::EnGB | Locale::EnEU => "en",
        }
    }

    /// Parses a locale code, with regional variants.
    pub fn from_str(s: &str) -> (r: Locale)
        ensures
            r == locale_of(s@),
    {
        let v = chars_of(s);
        if chars_eq_str(&v, "en-US") {
            Locale::EnUS
        } else if chars_eq_str(&v, "en-GB") {
            Locale::EnGB
        } else if chars_eq_str(&v, "en-IE") || chars_eq_str(&v, "en-MT") || chars_eq_str(
            &v,
            "en-EU",
        ) {
            Locale::EnEU
        } else if chars_eq_str(&v, "de-DE") {
            Locale::DeDE
        } else if chars_eq_str(&v, "de-AT") {
            Locale::DeAT
        } else if chars_eq_str(&v, "de-CH") || chars_eq_str(&v, "de-LI") {
            Locale::DeCH
        } else if starts_with_chars(&v, "en") {
            Locale::En
        } else {
            Locale::De
        }
    }

    /// The full locale code, such as `de-DE` or `en-US`.
    pub fn full_code(&self) -> (r: &'static str)
        ensures
            r@ == full_code_spec(*self),
    {
        match self {
            Locale::De => "de",
            Locale::DeDE => "de-DE",
            Locale::DeAT => "de-AT",
            Locale::DeCH => "de-CH",
            Locale::En => "en",
            Locale::EnUS => "en-US",
            Locale::EnGB => "en-GB",
            Locale::EnEU => "en-EU",
        }
    }
}

/// The locale the language button switches to: English from any German
/// locale, German from any English one.
pub open spec fn toggled_locale(l: Locale) -> Locale {
    if is_german(l) {
        Locale::En
    } else {
        Locale::De
    }
}

impl Locale {
    /// The locale the language button switches to.
    pub fn toggled(self) -> (r: Locale)
        ensures
            r == toggled_locale(self),
    {
        match self {
            Locale::De | Locale::DeDE | Locale::DeAT | Locale::DeCH => Locale::En,
            Locale::En | Locale::EnUS | Locale::EnGB | Locale::EnEU => Locale::De,
        }
    }

    /// The translation key of the language button's label.
    pub fn language_toggle_label_key(self) -> (r: &'static str)
        ensures
            r@ == (if is_german(self) {
                "app.language_toggle_to_english"@
            } else {
                "app.language_toggle_to_german"@
            }),
    {
        match self {
            Locale::De | Locale::DeDE | Locale::DeAT | Locale::DeCH => "app.language_toggle_to_english",
            Locale::En | Locale::EnUS | Locale::EnGB | Locale::EnEU => "app.language_toggle_to_german",
        }
    }

    /// The code shown on the language button: the language it switches to.
    pub fn language_toggle_code(self) -> (r: &'static str)
        ensures
            r@ == (if is_german(self) {
                "EN"@
            } else {
                "DE"@
            }),
    {
        match self {
            Locale::De | Locale::DeDE | Locale::DeAT | Locale::DeCH => "EN",
            Locale::En | Locale::EnUS | Locale::EnGB | Locale::EnEU => "DE",
        }
    }
}

/// Pressing the language button switches the language, and pressing it twice
/// comes back to the language's plain locale.
pub proof fn lemma_toggle_language_twice(l: Locale)
    ensures
        is_german(toggled_locale(l)) != is_german(l),
        toggled_locale(toggled_locale(l)) == (if is_german(l) {
            Locale::De
        } else {
            Locale::En
        }),
{
}

/// Every locale is read back from its full code: persisting a locale and
/// loading it again gives the same locale.
pub proof fn lemma_full_code_round_trip(l: Locale)
    ensures
        locale_of(full_code_spec(l)) == l,
{
    reveal_strlit("de");
    reveal_strlit("en");
    reveal_strlit("de-DE");
    reveal_strlit("de-AT");
    reveal_strlit("de-CH");
    reveal_strlit("de-LI");
    reveal_strlit("en-US");
    reveal_strlit("en-GB");
    reveal_strlit("en-EU");
    reveal_strlit("en-IE");
    reveal_strlit("en-MT");
    assert("de-DE"@.len() == 5 && "de-DE"@[0] == 'd' && "de-DE"@[3] == 'D' && "de-DE"@[4] == 'E');
    assert("de-AT"@.len() == 5 && "de-AT"@[0] == 'd' && "de-AT"@[3] == 'A' && "de-AT"@[4] == 'T');
    assert("de-CH"@.len() == 5 && "de-CH"@[0] == 'd' && "de-CH"@[3] == 'C' && "de-CH"@[4] == 'H');
    assert("de-LI"@.len() == 5 && "de-LI"@[0] == 'd' && "de-LI"@[3] == 'L' && "de-LI"@[4] == 'I');
    assert("en-US"@.len() == 5 && "en-US"@[0] == 'e' && "en-US"@[3] == 'U' && "en-US"@[4] == 'S');
    assert("en-GB"@.len() == 5 && "en-GB"@[0] == 'e' && "en-GB"@[3] == 'G' && "en-GB"@[4] == 'B');
    assert("en-EU"@.len() == 5 && "en-EU"@[0] == 'e' && "en-EU"@[3] == 'E' && "en-EU"@[4] == 'U');
    assert("en-IE"@.len() == 5 && "en-IE"@[0] == 'e' && "en-IE"@[3] == 'I' && "en-IE"@[4] == 'E');
    assert("en-MT"@.len() == 5 && "en-MT"@[0] == 'e' && "en-MT"@[3] == 'M' && "en-MT"@[4] == 'T');
    assert("de"@.len() == 2 && "de"@[0] == 'd');
    assert("en"@.len() == 2 && "en"@[0] == 'e' && "en"@[1] == 'n');
    assert("de"@.take(2)[0] == 'd');
    assert(!begins_with("de"@, "en"@));
    assert("en"@.take(2) =~= "en"@);
}

} // verus!
