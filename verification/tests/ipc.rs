use feather::ipc::{message_action, message_fields_action, WebViewAction};

#[test]
fn navigate_message_loads_the_url() {
    assert_eq!(
        message_action(r#"{"type":"navigate","url":"https://github.com"}"#),
        Some(WebViewAction::LoadUrl("https://github.com".to_string()))
    );
}

#[test]
fn navigate_without_url_loads_empty_url() {
    assert_eq!(
        message_action(r#"{"type":"navigate"}"#),
        Some(WebViewAction::LoadUrl(String::new()))
    );
    assert_eq!(
        message_action(r#"{"type":"navigate","url":5}"#),
        Some(WebViewAction::LoadUrl(String::new()))
    );
}

#[test]
fn history_and_reload_messages_run_scripts() {
    assert_eq!(
        message_action(r#"{"type":"back"}"#),
        Some(WebViewAction::EvaluateScript("window.history.go(-1)".to_string()))
    );
    assert_eq!(
        message_action(r#"{"type":"forward"}"#),
        Some(WebViewAction::EvaluateScript("window.history.go(1)".to_string()))
    );
    assert_eq!(
        message_action(r#"{ "type" : "reload" }"#),
        Some(WebViewAction::EvaluateScript("location.reload()".to_string()))
    );
}

#[test]
fn other_messages_do_nothing() {
    assert_eq!(message_action("not json"), None);
    assert_eq!(message_action(r#"{"type":"close"}"#), None);
    assert_eq!(message_action(r#"{"kind":"back"}"#), None);
    assert_eq!(message_action(r#"["back"]"#), None);
    assert_eq!(message_action(r#"{"type":1}"#), None);
}

#[test]
fn fields_decide_the_action() {
    assert_eq!(
        message_fields_action(Some("navigate".to_string()), Some("u".to_string())),
        Some(WebViewAction::LoadUrl("u".to_string()))
    );
    assert_eq!(message_fields_action(None, Some("u".to_string())), None);
    assert_eq!(message_fields_action(Some("Back".to_string()), None), None);
}
