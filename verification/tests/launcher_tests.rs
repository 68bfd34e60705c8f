use ez_vend::launcher::{
    content_type, existing_lock_action, has_extension, is_known_binary_name, parse_lock_pid,
    response_headers, retry_lock_creation, sanitize_decoded_path, sanitize_request_path,
    serve_candidates, ExistingLockAction, CONTENT_SECURITY_POLICY, CONTENT_TYPE_OPTIONS,
    FRAME_OPTIONS,
};

#[test]
fn sanitize_rejects_decoded_parent_segments() {
    assert_eq!(sanitize_request_path("/%2e%2e/secrets.txt"), None);
    assert_eq!(sanitize_request_path("/safe/%2E%2E/file.txt"), None);
}

#[test]
fn sanitize_normalizes_empty_and_relative_segments() {
    assert_eq!(sanitize_request_path("/"), Some("index.html".to_string()));
    assert_eq!(
        sanitize_request_path("/assets//./app.js"),
        Some("assets/app.js".to_string())
    );
}

#[test]
fn sanitize_decodes_and_normalizes_backslashes() {
    assert_eq!(
        sanitize_request_path("/docs%20and%20more/a%5Cb.txt"),
        Some("docs and more/a/b.txt".to_string())
    );
    assert_eq!(sanitize_request_path("\\..\\x"), None);
    assert_eq!(sanitize_request_path("/./"), Some("index.html".to_string()));
    assert_eq!(sanitize_request_path("///"), Some("index.html".to_string()));
    // a lone percent sign stays, a plus stays a plus
    assert_eq!(sanitize_request_path("/a%zz+b"), Some("a%zz+b".to_string()));
    // bytes that are not UTF-8 are refused
    assert_eq!(sanitize_request_path("/%ff"), None);
    assert_eq!(sanitize_decoded_path("..."), Some("...".to_string()));
}

#[test]
fn extensions_follow_file_names() {
    assert!(has_extension("assets/app.js"));
    assert!(has_extension("archive.tar.gz"));
    assert!(has_extension("name."));
    assert!(!has_extension("booths"));
    assert!(!has_extension(".hidden"));
    assert!(!has_extension("dir.d/file"));
    assert!(!has_extension(".."));
    assert!(has_extension("a/b.txt/"));
}

#[test]
fn content_types_by_extension() {
    assert_eq!(content_type("index.html"), "text/html; charset=utf-8");
    assert_eq!(content_type("app.mjs"), "application/javascript; charset=utf-8");
    assert_eq!(content_type("app_bg.wasm"), "application/wasm");
    assert_eq!(content_type("photo.jpeg"), "image/jpeg");
    assert_eq!(content_type("favicon.ico"), "image/x-icon");
    assert_eq!(content_type("README"), "application/octet-stream");
    assert_eq!(content_type("PAGE.HTML"), "application/octet-stream");
}

#[test]
fn client_routes_fall_back_to_index() {
    assert_eq!(serve_candidates("/booths"), vec!["booths".to_string(), "index.html".to_string()]);
    assert_eq!(serve_candidates("/app.js"), vec!["app.js".to_string()]);
    assert_eq!(serve_candidates("/"), vec!["index.html".to_string()]);
    assert!(serve_candidates("/../etc/passwd").is_empty());
}

#[test]
fn responses_carry_security_headers() {
    let headers = response_headers("text/plain; charset=utf-8");
    assert_eq!(headers.len(), 4);
    assert_eq!(headers[0], ("Content-Type".to_string(), "text/plain; charset=utf-8".to_string()));
    assert_eq!(headers[1], ("Content-Security-Policy".to_string(), CONTENT_SECURITY_POLICY.to_string()));
    assert_eq!(headers[2], ("X-Content-Type-Options".to_string(), CONTENT_TYPE_OPTIONS.to_string()));
    assert_eq!(headers[3], ("X-Frame-Options".to_string(), FRAME_OPTIONS.to_string()));
    assert_eq!(FRAME_OPTIONS, "DENY");
    assert_eq!(CONTENT_TYPE_OPTIONS, "nosniff");
}

#[test]
fn lock_file_handling() {
    assert_eq!(parse_lock_pid(" 4242\n"), Some(4242));
    assert_eq!(parse_lock_pid("+7"), Some(7));
    assert_eq!(parse_lock_pid("not a pid"), None);
    assert_eq!(parse_lock_pid(""), None);
    assert_eq!(parse_lock_pid("4294967296"), None);
    assert_eq!(parse_lock_pid("4294967295"), Some(4294967295));
    assert_eq!(existing_lock_action(None, true), ExistingLockAction::RemoveInvalid);
    assert_eq!(existing_lock_action(Some(1), true), ExistingLockAction::ActiveInstance);
    assert_eq!(existing_lock_action(Some(1), false), ExistingLockAction::RemoveStale);
    assert!(retry_lock_creation(0));
    assert!(retry_lock_creation(3));
    assert!(!retry_lock_creation(4));
    assert!(is_known_binary_name("EZ-VEND.EXE"));
    assert!(is_known_binary_name("ez-vend-launcher"));
    assert!(!is_known_binary_name("bash"));
}

#[test]
fn responses_include_security_headers() {
    let headers = response_headers("text/plain; charset=utf-8");
    let get = |name: &str| {
        headers.iter().find(|(k, _)| k == name).map(|(_, v)| v.clone()).unwrap()
    };
    assert_eq!(get("Content-Security-Policy"), CONTENT_SECURITY_POLICY);
    assert_eq!(get("X-Content-Type-Options"), CONTENT_TYPE_OPTIONS);
    assert_eq!(get("X-Frame-Options"), FRAME_OPTIONS);
}
