use feather::address_bar::AddressBar;
use feather::toolbar_ui::resolve_input;

#[test]
fn test_resolve() {
    let _bar = AddressBar::new("");

    // Full URL passthrough
    let mut b = AddressBar::new("https://google.com");
    assert_eq!(b.resolve(), "https://google.com");

    // Domain gets https prepended
    b.text = "github.com".to_string();
    assert_eq!(b.resolve(), "https://github.com");

    // Search query
    b.text = "how to make a browser".to_string();
    assert!(b.resolve().contains("duckduckgo.com"));
    assert!(b.resolve().contains("how+to+make+a+browser"));
}

#[test]
fn new_address_bar_is_unfocused() {
    let b = AddressBar::new("https://example.org");
    assert_eq!(b.text, "https://example.org");
    assert!(!b.is_focused);
}

#[test]
fn resolve_trims_white_space() {
    assert_eq!(resolve_input("  github.com\t\n"), "https://github.com");
    assert_eq!(resolve_input("\u{3000}http://a.b \u{a0}"), "http://a.b");
}

#[test]
fn resolve_search_exact() {
    assert_eq!(
        resolve_input("how to make a browser"),
        "https://duckduckgo.com/?q=how+to+make+a+browser"
    );
    assert_eq!(resolve_input("rust"), "https://duckduckgo.com/?q=rust");
}

#[test]
fn resolve_dotted_text_with_space_is_a_search() {
    assert_eq!(resolve_input("v1.2 notes"), "https://duckduckgo.com/?q=v1.2+notes");
}

#[test]
fn resolve_empty_and_blank_input() {
    assert_eq!(resolve_input(""), "https://duckduckgo.com/?q=");
    assert_eq!(resolve_input("   "), "https://duckduckgo.com/?q=");
}

#[test]
fn resolve_keeps_http_urls() {
    assert_eq!(resolve_input("http://example.com/a b"), "http://example.com/a b");
    assert_eq!(resolve_input("https://"), "https://");
}

#[test]
fn resolve_non_ascii() {
    assert_eq!(resolve_input("ünïcode.de"), "https://ünïcode.de");
    assert_eq!(resolve_input("café au lait"), "https://duckduckgo.com/?q=café+au+lait");
}

#[test]
fn resolve_is_idempotent_on_examples() {
    for input in ["  github.com ", "how to make a browser", "", "http://x.y", "a\tb"] {
        let once = resolve_input(input);
        assert_eq!(resolve_input(&once), once);
    }
}

#[test]
fn resolved_addresses_are_web_addresses() {
    for input in ["github.com", "plain words", " ", "ftp://x.y"] {
        let r = resolve_input(input);
        assert!(r.starts_with("http://") || r.starts_with("https://"));
    }
}
