use things_api::server::{
    error_status, generate_token, is_authorized, parse_port, resolve_port, token_from_bytes,
    tunnel_url_in_line,
};

#[test]
fn bearer_token_must_match_exactly() {
    assert!(is_authorized(Some("Bearer secret"), "secret"));
    assert!(!is_authorized(Some("Bearer secret "), "secret"));
    assert!(!is_authorized(Some("bearer secret"), "secret"));
    assert!(!is_authorized(Some("secret"), "secret"));
    assert!(!is_authorized(None, "secret"));
    assert!(is_authorized(Some("Bearer "), ""));
}

#[test]
fn missing_objects_are_not_found() {
    assert_eq!(error_status("execution error: Things3 got an error: Can't get to do id \"x\". (-1728)"), 404);
    assert_eq!(error_status("Things3 doesn't understand the “move” message."), 404);
    assert_eq!(error_status("AppleScript error: not running"), 500);
    assert_eq!(error_status(""), 500);
    assert_eq!(error_status("can't get"), 500);
}

#[test]
fn token_is_prefix_and_lowercase_hex() {
    let bytes: Vec<u8> = (0u8..24).map(|i| i.wrapping_mul(37).wrapping_add(250)).collect();
    let expected = format!(
        "thingsapi_{}",
        bytes.iter().map(|b| format!("{:02x}", b)).collect::<String>()
    );
    assert_eq!(token_from_bytes(&bytes), expected);
    assert_eq!(token_from_bytes(&[0x00, 0x0f, 0xa0, 0xff]), "thingsapi_000fa0ff");
}

#[test]
fn generated_tokens_have_the_documented_shape() {
    let t = generate_token();
    assert_eq!(t.len(), 58);
    assert!(t.starts_with("thingsapi_"));
    assert!(t[10..].chars().all(|c| c.is_ascii_hexdigit() && !c.is_ascii_uppercase()));
}

#[test]
fn tunnel_url_is_found_in_its_log_line() {
    assert_eq!(
        tunnel_url_in_line("2024 INF |  https://calm-river-1234.trycloudflare.com                |"),
        Some("https://calm-river-1234.trycloudflare.com".to_string())
    );
    assert_eq!(
        tunnel_url_in_line("see https://example.com for details"),
        None
    );
    assert_eq!(tunnel_url_in_line("no url here"), None);
    assert_eq!(
        tunnel_url_in_line("https://a.trycloudflare.com\tnext"),
        Some("https://a.trycloudflare.com".to_string())
    );
}

#[test]
fn port_parsing_agrees_with_std() {
    for s in ["", "+", "-1", "0", "80", "+8080", "65535", "65536", "0003333", "12a", " 80", "99999999999"] {
        assert_eq!(parse_port(s), s.parse::<u16>().ok(), "input {:?}", s);
    }
}

#[test]
fn port_is_chosen_in_order() {
    assert_eq!(resolve_port(Some(9000), Some("8080")), 9000);
    assert_eq!(resolve_port(None, Some("8080")), 8080);
    assert_eq!(resolve_port(None, Some("oops")), 3333);
    assert_eq!(resolve_port(None, None), 3333);
}
