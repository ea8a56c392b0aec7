use feather::toolbar_ui::{ToolbarEvent, ToolbarState};

#[test]
fn toolbar_starts_on_duckduckgo() {
    let s = ToolbarState::new();
    assert_eq!(s.address_text, "https://duckduckgo.com");
    assert!(!s.is_loading && !s.can_go_back && !s.can_go_forward);
    assert_eq!(s.reload_label(), "↺");
}

#[test]
fn reload_label_while_loading() {
    let mut s = ToolbarState::new();
    s.is_loading = true;
    assert_eq!(s.reload_label(), "✕");
}

#[test]
fn entering_an_address_navigates_to_the_resolved_url() {
    let mut s = ToolbarState::new();
    s.address_text = " example.com ".to_string();
    let e = s.frame_event(false, false, true, true);
    assert_eq!(e, Some(ToolbarEvent::Navigate("https://example.com".to_string())));
    assert_eq!(s.address_text, "https://example.com");
}

#[test]
fn disabled_buttons_give_no_event() {
    let mut s = ToolbarState::new();
    assert_eq!(s.frame_event(true, true, false, false), None);
    assert_eq!(s.address_text, "https://duckduckgo.com");
}

#[test]
fn later_buttons_win() {
    let mut s = ToolbarState::new();
    s.can_go_back = true;
    s.can_go_forward = true;
    assert_eq!(s.frame_event(true, false, false, false), Some(ToolbarEvent::GoBack));
    assert_eq!(s.frame_event(true, true, false, false), Some(ToolbarEvent::GoForward));
    assert_eq!(s.frame_event(true, true, true, false), Some(ToolbarEvent::Reload));
}
