use vstd::prelude::*;

use crate::address_bar::resolved_address;
use crate::text::{chars_of, has_char, has_prefix, replace_spaces, spaces_to_plus, trim, trim_bounds};

verus! {

broadcast use vstd::string::group_string_axioms;

/// Turns user input into a proper URL.
pub fn resolve_input(input: &str) -> (r: String)
    ensures
        r@ == resolved_address(input@),
        "http://"@.is_prefix_of(trim(input@)) || "https://"@.is_prefix_of(trim(input@)) ==> r@
            == trim(input@),
        !("http://"@.is_prefix_of(trim(input@)) || "https://"@.is_prefix_of(trim(input@)))
            && trim(input@).contains('.') && !trim(input@).contains(' ') ==> r@ == "https://"@ + trim(input@),
        !("http://"@.is_prefix_of(trim(input@)) || "https://"@.is_prefix_of(trim(input@)))
            && !(trim(input@).contains('.') && !trim(input@).contains(' ')) ==> r@
            == "https://duckduckgo.com/?q="@ + spaces_to_plus(trim(input@)),
{
    let v = chars_of(input);
    let (start, end) = trim_bounds(&v);
    let t = input.substring_char(start, end);
    let tv = chars_of(t);
    let http = chars_of("http://");
    let https = chars_of("https://");
    if has_prefix(&tv, &http) || has_prefix(&tv, &https) {
        return String::from_str(t);
    }
    if has_char(&tv, '.') && !has_char(&tv, ' ') {
        let mut r = String::from_str("https://");
        r.append(t);
        return r;
    }
    let mut r = String::from_str("https://duckduckgo.com/?q=");
    let q = replace_spaces(t);
    r.append(q.as_str());
    r
}

/// What the toolbar shows: the address being edited and which buttons
/// are enabled.
pub struct ToolbarState {
    pub address_text: String,
    pub is_loading: bool,
    pub can_go_back: bool,
    pub can_go_forward: bool,
}

/// What the user did this frame.
#[derive(Debug, PartialEq, Eq)]
pub enum ToolbarEvent {
    Navigate(String),
    GoBack,
    GoForward,
    Reload,
}

impl ToolbarState {
    /// The toolbar at start-up: DuckDuckGo in the address bar, not loading,
    /// no history either way.
    pub fn new() -> (s: Self)
        ensures
            s.address_text@ == "https://duckduckgo.com"@,
            !s.is_loading,
            !s.can_go_back,
            !s.can_go_forward,
    {
        ToolbarState {
            address_text: String::from_str("https://duckduckgo.com"),
            is_loading: false,
            can_go_back: false,
            can_go_forward: false,
        }
    }

    /// The label of the reload button: a cross that stops a load in
    /// progress, otherwise the reload arrow.
    pub fn reload_label(&self) -> (r: &'static str)
        ensures
            r@ == if self.is_loading {
                "✕"@
            } else {
                "↺"@
            },
    {
        if self.is_loading {
            "✕"
        } else {
            "↺"
        }
    }

    /// The event of one frame of the toolbar, given which buttons were
    /// clicked and whether Enter was pressed as the address bar lost focus.
    /// A disabled back or forward button gives no event. Where several
    /// happen in one frame the last one in toolbar order wins: back,
    /// forward, reload, then the address. Entering an address resolves it,
    /// shows the resolved address in the bar and navigates there.
    pub fn frame_event(
        &mut self,
        back_clicked: bool,
        forward_clicked: bool,
        reload_clicked: bool,
        address_entered: bool,
    ) -> (r: Option<ToolbarEvent>)
        ensures
            final(self).is_loading == old(self).is_loading,
            final(self).can_go_back == old(self).can_go_back,
            final(self).can_go_forward == old(self).can_go_forward,
            address_entered ==> {
                &&& r matches Some(ToolbarEvent::Navigate(url))
                &&& url@ == resolved_address(old(self).address_text@)
                &&& final(self).address_text@ == url@
            },
            !address_entered ==> final(self).address_text@ == old(self).address_text@,
            !address_entered && reload_clicked ==> r == Some(ToolbarEvent::Reload),
            !address_entered && !reload_clicked && forward_clicked && old(self).can_go_forward
                ==> r == Some(ToolbarEvent::GoForward),
            !address_entered && !reload_clicked && !(forward_clicked && old(self).can_go_forward)
                && back_clicked && old(self).can_go_back ==> r == Some(ToolbarEvent::GoBack),
            !address_entered && !reload_clicked && !(forward_clicked && old(self).can_go_forward)
                && !(back_clicked && old(self).can_go_back) ==> r is None,
    {
        let mut event = None;
        if back_clicked && self.can_go_back {
            event = Some(ToolbarEvent::GoBack);
        }
        if forward_clicked && self.can_go_forward {
            event = Some(ToolbarEvent::GoForward);
        }
        if reload_clicked {
            event = Some(ToolbarEvent::Reload);
        }
        if address_entered {
            let url = resolve_input(self.address_text.as_str());
            self.address_text = url.clone();
            event = Some(ToolbarEvent::Navigate(url));
        }
        event
    }
}

} // verus!
