use ez_vend::device::{
    detect_browser, detect_platform, device_identifier_basis, format_error_message,
    load_device_identifier, load_or_create_device_identifier, normalize_device_identifier,
    reset_device_identifier, save_device_identifier, shorten_error_text,
    validate_device_identifier,
};

#[test]
fn accepts_valid_device_identifiers() {
    assert!(validate_device_identifier("marias-laptop").is_ok());
    assert!(validate_device_identifier("AWO_Desk_01").is_ok());
    assert!(validate_device_identifier("abc").is_ok());
}

#[test]
fn rejects_invalid_device_identifiers() {
    assert!(validate_device_identifier("ab").is_err());
    assert!(validate_device_identifier("name with spaces").is_err());
    assert!(validate_device_identifier("device!").is_err());
    assert!(validate_device_identifier(&"a".repeat(51)).is_err());
}

#[test]
fn validation_error_texts() {
    assert_eq!(
        validate_device_identifier("ab"),
        Err("device identifier must be 3-50 characters".to_string())
    );
    assert_eq!(
        validate_device_identifier("dev ice"),
        Err(
            "device identifier may only contain letters, numbers, hyphens, and underscores"
                .to_string()
        )
    );
    assert!(validate_device_identifier(&"a".repeat(50)).is_ok());
}

#[test]
fn length_is_counted_in_bytes_after_trimming() {
    // two characters, three bytes: long enough, but not ASCII
    assert_eq!(
        validate_device_identifier("äb"),
        Err(
            "device identifier may only contain letters, numbers, hyphens, and underscores"
                .to_string()
        )
    );
    assert!(validate_device_identifier("  abc  ").is_ok());
    assert!(validate_device_identifier("  ab  ").is_err());
}

#[test]
fn normalize_and_save_trim_the_identifier() {
    assert_eq!(normalize_device_identifier("  desk-1 \n"), Ok("desk-1".to_string()));
    assert_eq!(save_device_identifier(" desk_2 ".to_string()), Ok("desk_2".to_string()));
    assert!(save_device_identifier("x".to_string()).is_err());
}

#[test]
fn load_keeps_only_valid_identifiers() {
    assert_eq!(load_device_identifier(Some(" kiosk ".to_string())), Some("kiosk".to_string()));
    assert_eq!(load_device_identifier(Some("bad id".to_string())), None);
    assert_eq!(load_device_identifier(None), None);
}

#[test]
fn load_or_create_prefers_stored_identifier() {
    assert_eq!(
        load_or_create_device_identifier(Some("stored-1".to_string()), "Linux-Firefox".to_string()),
        ("stored-1".to_string(), false)
    );
    assert_eq!(
        load_or_create_device_identifier(Some("!!".to_string()), "Linux-Firefox".to_string()),
        ("Linux-Firefox".to_string(), true)
    );
    assert_eq!(
        load_or_create_device_identifier(None, "Windows-Edge".to_string()),
        ("Windows-Edge".to_string(), true)
    );
}

#[test]
fn reset_falls_back_to_this_device() {
    assert_eq!(reset_device_identifier(String::new()), "this-device");
    assert_eq!(reset_device_identifier("macOS-Safari".to_string()), "macOS-Safari");
}

#[test]
fn detects_platforms_and_browsers() {
    let chrome_win = "Mozilla/5.0 (Windows NT 10.0; Win64; x64) AppleWebKit/537.36 (KHTML, like Gecko) Chrome/120.0 Safari/537.36";
    let edge = "Mozilla/5.0 (Windows NT 10.0) AppleWebKit/537.36 Chrome/120.0 Safari/537.36 Edg/120.0";
    let firefox_linux = "Mozilla/5.0 (X11; Linux x86_64; rv:121.0) Gecko/20100101 Firefox/121.0";
    let safari_ios = "Mozilla/5.0 (iPhone; CPU iPhone OS 17_0 like Mac OS X) AppleWebKit/605.1.15 Version/17.0 Mobile/15E148 Safari/604.1";
    let safari_mac = "Mozilla/5.0 (Macintosh; Intel Mac OS X 14_0) AppleWebKit/605.1.15 Version/17.0 Safari/605.1.15";
    let android = "Mozilla/5.0 (Linux; Android 14) AppleWebKit/537.36 Chrome/120.0 Mobile Safari/537.36";

    assert_eq!(detect_platform(chrome_win), "Windows");
    assert_eq!(detect_browser(chrome_win), "Chrome");
    assert_eq!(detect_browser(edge), "Edge");
    assert_eq!(detect_platform(firefox_linux), "Linux");
    assert_eq!(detect_browser(firefox_linux), "Firefox");
    assert_eq!(detect_platform(safari_ios), "iOS");
    assert_eq!(detect_browser(safari_ios), "Safari");
    assert_eq!(detect_platform(safari_mac), "macOS");
    assert_eq!(detect_platform(android), "Android");
    assert_eq!(detect_platform(""), "Unknown");
    assert_eq!(detect_browser("curl/8.0"), "Browser");
    assert_eq!(device_identifier_basis(firefox_linux), "Linux-Firefox");
}

#[test]
fn error_text_is_flattened_and_shortened() {
    assert_eq!(shorten_error_text("line one\nline two\r"), "line one line two ");
    let long = "x".repeat(200);
    let short = shorten_error_text(&long);
    assert_eq!(short, format!("{}...", "x".repeat(137)));
    assert_eq!(short.len(), 140);
    let exactly = "y".repeat(140);
    assert_eq!(shorten_error_text(&exactly), exactly);
    // a multi-byte character that would straddle byte 137 is left out
    let mixed = format!("{}é{}", "a".repeat(136), "b".repeat(10));
    assert_eq!(shorten_error_text(&mixed), format!("{}...", "a".repeat(136)));
}

#[derive(Debug)]
#[allow(dead_code)]
enum SampleError {
    NotFound(String),
}

#[test]
fn format_error_message_uses_debug_text() {
    let e = SampleError::NotFound("booth".to_string());
    assert_eq!(format_error_message(&e), "NotFound(\"booth\")");
}
