use vstd::prelude::*;

verus! {

broadcast use vstd::string::group_string_axioms;

/// The string that the JSON text `text` holds under the key `key` of its
/// top-level object, if `text` parses as JSON, is an object, and holds a
/// string there.
pub uninterp spec fn json_string_member(text: Seq<char>, key: Seq<char>) -> Option<Seq<char>>;

/// Looks up a string member of a JSON object with `serde_json`: parses
/// `text` with `serde_json::from_str` into a `serde_json::Value`, indexes it
/// by `key` and reads it with `Value::as_str`. Trusted to return exactly
/// `json_string_member(text, key)`, which is left unspecified.
#[verifier::external_body]
fn json_string_field(text: &str, key: &str) -> (r: Option<String>)
    ensures
        match r {
            Some(s) => json_string_member(text@, key@) == Some(s@),
            None => json_string_member(text@, key@) is None,
        },
{
    match serde_json::from_str::<serde_json::Value>(text) {
        Ok(value) => match value[key].as_str() {
            Some(s) => Some(s.to_string()),
            None => None,
        },
        Err(_) => None,
    }
}

/// What the web view is to do for a message from the page toolbar.
#[derive(Debug, PartialEq, Eq)]
pub enum WebViewAction {
    /// Load this URL.
    LoadUrl(String),
    /// Run this script in the page.
    EvaluateScript(String),
}

/// A web-view action as plain values.
pub enum WebViewActionView {
    LoadUrl(Seq<char>),
    EvaluateScript(Seq<char>),
}

impl View for WebViewAction {
    type V = WebViewActionView;

    open spec fn view(&self) -> WebViewActionView {
        match self {
            WebViewAction::LoadUrl(u) => WebViewActionView::LoadUrl(u@),
            WebViewAction::EvaluateScript(s) => WebViewActionView::EvaluateScript(s@),
        }
    }
}

/// The view of an optional action.
pub open spec fn action_view(a: Option<WebViewAction>) -> Option<WebViewActionView> {
    match a {
        Some(x) => Some(x@),
        None => None,
    }
}

/// The view of an optional string.
pub open spec fn text_view(s: Option<String>) -> Option<Seq<char>> {
    match s {
        Some(x) => Some(x@),
        None => None,
    }
}

/// The action for a toolbar message of type `kind` carrying `url`:
/// `navigate` loads the URL (the empty one when there is none), `back`
/// and `forward` step through the page history, `reload` reloads the page,
/// and anything else does nothing.
pub open spec fn page_message_action(kind: Option<Seq<char>>, url: Option<Seq<char>>) -> Option<
    WebViewActionView,
> {
    match kind {
        Some(k) => if k == "navigate"@ {
            Some(
                WebViewActionView::LoadUrl(
                    match url {
                        Some(u) => u,
                        None => Seq::empty(),
                    },
                ),
            )
        } else if k == "back"@ {
            Some(WebViewActionView::EvaluateScript("window.history.go(-1)"@))
        } else if k == "forward"@ {
            Some(WebViewActionView::EvaluateScript("window.history.go(1)"@))
        } else if k == "reload"@ {
            Some(WebViewActionView::EvaluateScript("location.reload()"@))
        } else {
            None
        },
        None => None,
    }
}

/// The action for a toolbar message with the given type and URL fields.
pub fn message_fields_action(kind: Option<String>, url: Option<String>) -> (r: Option<
    WebViewAction,
>)
    ensures
        action_view(r) == page_message_action(text_view(kind), text_view(url)),
{
    match kind {
        Some(k) => {
            if k == String::from_str("navigate") {
                let u = match url {
                    Some(u) => u,
                    None => String::new(),
                };
                Some(WebViewAction::LoadUrl(u))
            } else if k == String::from_str("back") {
                Some(WebViewAction::EvaluateScript(String::from_str("window.history.go(-1)")))
            } else if k == String::from_str("forward") {
                Some(WebViewAction::EvaluateScript(String::from_str("window.history.go(1)")))
            } else if k == String::from_str("reload") {
                Some(WebViewAction::EvaluateScript(String::from_str("location.reload()")))
            } else {
                None
            }
        },
        None => None,
    }
}

/// The action for a JSON message posted by the page toolbar, such as
/// `{"type": "navigate", "url": "https://example.com"}`.
pub fn message_action(message: &str) -> (r: Option<WebViewAction>)
    ensures
        action_view(r) == page_message_action(
            json_string_member(message@, "type"@),
            json_string_member(message@, "url"@),
        ),
{
    let kind = json_string_field(message, "type");
    let url = json_string_field(message, "url");
    message_fields_action(kind, url)
}

} // verus!
