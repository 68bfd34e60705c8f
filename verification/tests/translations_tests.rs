use ez_vend::translations::{fill, JsonValue, Translations};

fn sample() -> Translations {
    Translations::from_entries(vec![
        (
            "common".to_string(),
            JsonValue::Object(vec![
                ("save".to_string(), JsonValue::String("Speichern".to_string())),
                ("count".to_string(), JsonValue::Other),
            ]),
        ),
        (
            "booth".to_string(),
            JsonValue::Object(vec![(
                "title".to_string(),
                JsonValue::String("Veranstaltung".to_string()),
            )]),
        ),
        (
            "greeting".to_string(),
            JsonValue::String("Hallo {name}, {}{missing} {".to_string()),
        ),
    ])
}

#[test]
fn nested_keys_are_looked_up() {
    let t = sample();
    assert_eq!(t.get("common.save"), "Speichern");
    assert_eq!(t.get("booth.title"), "Veranstaltung");
}

#[test]
fn missing_and_invalid_keys_are_marked() {
    let t = sample();
    assert_eq!(t.get("nonexistent.key"), "[missing: nonexistent.key]");
    assert!(t.get("nonexistent.key").contains("[missing:"));
    assert_eq!(t.get("common.save.deeper"), "[missing: common.save.deeper]");
    assert_eq!(t.get("common"), "[invalid: common]");
    assert_eq!(t.get("common.count"), "[invalid: common.count]");
    assert_eq!(t.get(""), "[missing: ]");
}

#[test]
fn templates_are_filled() {
    let t = sample();
    let params = vec![("name".to_string(), "Maria".to_string())];
    assert_eq!(t.format("greeting", &params), "Hallo Maria, {}{missing} {}");
    assert_eq!(fill("{a}-{b}", &vec![("b".to_string(), "2".to_string())]), "{a}-2");
    assert_eq!(fill("open {end", &vec![]), "open {end}");
    assert_eq!(fill("{}", &vec![]), "{}");
    assert_eq!(
        fill("{x}{x}", &vec![("x".to_string(), "1".to_string()), ("x".to_string(), "2".to_string())]),
        "11"
    );
}

#[test]
fn test_missing_key() {
    let de = sample();
    assert!(de.get("nonexistent.key").contains("[missing:"));
}
