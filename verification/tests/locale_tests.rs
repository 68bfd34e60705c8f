use ez_vend::locale::Locale;

#[test]
fn test_locale_from_str() {
    // English variants
    assert_eq!(Locale::from_str("en-US"), Locale::EnUS);
    assert_eq!(Locale::from_str("en-GB"), Locale::EnGB);
    assert_eq!(Locale::from_str("en-EU"), Locale::EnEU);
    assert_eq!(Locale::from_str("en-IE"), Locale::EnEU);
    assert_eq!(Locale::from_str("en"), Locale::En);

    // German variants
    assert_eq!(Locale::from_str("de-DE"), Locale::DeDE);
    assert_eq!(Locale::from_str("de-AT"), Locale::DeAT);
    assert_eq!(Locale::from_str("de-CH"), Locale::DeCH);
    assert_eq!(Locale::from_str("de-LI"), Locale::DeCH);
    assert_eq!(Locale::from_str("de"), Locale::De);

    // Fallback
    assert_eq!(Locale::from_str("fr"), Locale::De);
    assert_eq!(Locale::from_str("es"), Locale::De);
}

#[test]
fn test_locale_as_str() {
    // All German variants return "de"
    assert_eq!(Locale::De.as_str(), "de");
    assert_eq!(Locale::DeDE.as_str(), "de");
    assert_eq!(Locale::DeAT.as_str(), "de");
    assert_eq!(Locale::DeCH.as_str(), "de");

    // All English variants return "en"
    assert_eq!(Locale::En.as_str(), "en");
    assert_eq!(Locale::EnUS.as_str(), "en");
    assert_eq!(Locale::EnGB.as_str(), "en");
    assert_eq!(Locale::EnEU.as_str(), "en");
}

#[test]
fn test_locale_full_code() {
    assert_eq!(Locale::De.full_code(), "de");
    assert_eq!(Locale::DeDE.full_code(), "de-DE");
    assert_eq!(Locale::DeAT.full_code(), "de-AT");
    assert_eq!(Locale::DeCH.full_code(), "de-CH");
    assert_eq!(Locale::En.full_code(), "en");
    assert_eq!(Locale::EnUS.full_code(), "en-US");
    assert_eq!(Locale::EnGB.full_code(), "en-GB");
    assert_eq!(Locale::EnEU.full_code(), "en-EU");
}

#[test]
fn persisted_locales_read_back_unchanged() {
    for l in [
        Locale::De,
        Locale::DeDE,
        Locale::DeAT,
        Locale::DeCH,
        Locale::En,
        Locale::EnUS,
        Locale::EnGB,
        Locale::EnEU,
    ] {
        assert_eq!(Locale::from_str(l.full_code()), l);
    }
    assert_eq!(Locale::from_str("en-AU"), Locale::En);
    assert_eq!(Locale::from_str("de-BE"), Locale::De);
    assert_eq!(Locale::from_str(""), Locale::De);
}

#[test]
fn language_button_switches_language() {
    assert_eq!(Locale::DeCH.toggled(), Locale::En);
    assert_eq!(Locale::EnGB.toggled(), Locale::De);
    assert_eq!(Locale::DeAT.toggled().toggled(), Locale::De);
    assert_eq!(Locale::De.language_toggle_label_key(), "app.language_toggle_to_english");
    assert_eq!(Locale::EnUS.language_toggle_label_key(), "app.language_toggle_to_german");
    assert_eq!(Locale::DeDE.language_toggle_code(), "EN");
    assert_eq!(Locale::En.language_toggle_code(), "DE");
}
