use vstd::prelude::*;

use crate::text::{is_white_space, spaces_to_plus, trim, trim_end, trim_start};
use crate::toolbar_ui::resolve_input;

verus! {

/// What the address bar turns typed input into: the input trimmed of white
/// space, kept as it is when it already starts with `http://` or `https://`,
/// given `https://` when it looks like a domain (a dot and no space), and
/// otherwise turned into a DuckDuckGo search for the words, spaces as `+`.
pub open spec fn resolved_address(input: Seq<char>) -> Seq<char> {
    let t = trim(input);
    if "http://"@.is_prefix_of(t) || "https://"@.is_prefix_of(t) {
        t
    } else if t.contains('.') && !t.contains(' ') {
        "https://"@ + t
    } else {
        "https://duckduckgo.com/?q="@ + spaces_to_plus(t)
    }
}

/// The address bar: the text being edited and whether it has focus.
pub struct AddressBar {
    pub text: String,
    pub is_focused: bool,
}

impl AddressBar {
    /// An unfocused address bar showing `initial_url`.
    pub fn new(initial_url: &str) -> (r: Self)
        ensures
            r.text@ == initial_url@,
            !r.is_focused,
    {
        AddressBar { text: String::from_str(initial_url), is_focused: false }
    }

    /// Called when the user hits Enter: figures out whether the text is a
    /// URL or a search query and returns the address to load.
    pub fn resolve(&self) -> (r: String)
        ensures
            r@ == resolved_address(self.text@),
            "http://"@.is_prefix_of(trim(self.text@)) || "https://"@.is_prefix_of(trim(self.text@)) ==> r@
                == trim(self.text@),
            !("http://"@.is_prefix_of(trim(self.text@)) || "https://"@.is_prefix_of(trim(self.text@)))
                && trim(self.text@).contains('.') && !trim(self.text@).contains(' ') ==> r@ == "https://"@ + trim(self.text@),
            !("http://"@.is_prefix_of(trim(self.text@)) || "https://"@.is_prefix_of(trim(self.text@)))
                && !(trim(self.text@).contains('.') && !trim(self.text@).contains(' ')) ==> r@
                == "https://duckduckgo.com/?q="@ + spaces_to_plus(trim(self.text@)),
    {
        resolve_input(self.text.as_str())
    }
}

/// A string that has no white space at either end is its own trim.
pub proof fn lemma_trim_of_bare(s: Seq<char>)
    requires
        s.len() == 0 || (!is_white_space(s[0]) && !is_white_space(s.last())),
    ensures
        trim(s) == s,
{
}

proof fn lemma_trim_start_bare_front(s: Seq<char>)
    ensures
        trim_start(s).len() == 0 || !is_white_space(trim_start(s)[0]),
    decreases s.len(),
{
    if s.len() > 0 && is_white_space(s[0]) {
        lemma_trim_start_bare_front(s.drop_first());
    }
}

proof fn lemma_trim_end_prefix(s: Seq<char>)
    ensures
        trim_end(s).len() <= s.len(),
        trim_end(s) =~= s.subrange(0, trim_end(s).len() as int),
        trim_end(s).len() == 0 || !is_white_space(trim_end(s).last()),
    decreases s.len(),
{
    if s.len() > 0 && is_white_space(s.last()) {
        lemma_trim_end_prefix(s.drop_last());
    }
}

/// A trimmed string has no white space at either end.
pub proof fn lemma_trim_is_bare(s: Seq<char>)
    ensures
        trim(s).len() == 0 || (!is_white_space(trim(s)[0]) && !is_white_space(trim(s).last())),
{
    lemma_trim_start_bare_front(s);
    lemma_trim_end_prefix(trim_start(s));
    if trim(s).len() > 0 {
        assert(trim(s)[0] == trim_start(s)[0]);
    }
}

/// What each kind of input resolves to: text that (once trimmed) starts
/// with `http://` or `https://` is kept as it is; other text with a dot and
/// no space gets `https://` in front; anything else becomes a DuckDuckGo
/// search for the trimmed text with its spaces turned into `+`.
pub proof fn lemma_resolved_address_cases(input: Seq<char>)
    ensures
        "http://"@.is_prefix_of(trim(input)) || "https://"@.is_prefix_of(trim(input)) ==> resolved_address(input)
            == trim(input),
        !("http://"@.is_prefix_of(trim(input)) || "https://"@.is_prefix_of(trim(input)))
            && trim(input).contains('.') && !trim(input).contains(' ') ==> resolved_address(input) == "https://"@ + trim(input),
        !("http://"@.is_prefix_of(trim(input)) || "https://"@.is_prefix_of(trim(input)))
            && !(trim(input).contains('.') && !trim(input).contains(' ')) ==> resolved_address(input)
            == "https://duckduckgo.com/?q="@ + spaces_to_plus(trim(input)),
{
}

/// Resolving an address is idempotent: an address that came out of the
/// address bar resolves to itself when it is entered again.
pub proof fn lemma_resolve_idempotent(input: Seq<char>)
    ensures
        resolved_address(resolved_address(input)) == resolved_address(input),
{
    reveal_strlit("http://");
    reveal_strlit("https://");
    reveal_strlit("https://duckduckgo.com/?q=");
    let t = trim(input);
    let r = resolved_address(input);
    lemma_trim_is_bare(input);
    lemma_resolved_is_web_address(input);
    if "http://"@.is_prefix_of(t) || "https://"@.is_prefix_of(t) {
        lemma_trim_of_bare(r);
    } else if t.contains('.') && !t.contains(' ') {
        assert(r.last() == t.last());
        lemma_trim_of_bare(r);
    } else {
        let p = "https://duckduckgo.com/?q="@;
        if t.len() > 0 {
            assert(r.last() == spaces_to_plus(t).last());
            assert(t.last() != ' ');
        } else {
            assert(r =~= p);
        }
        lemma_trim_of_bare(r);
    }
}

/// Every resolved address starts with `http://` or `https://`.
pub proof fn lemma_resolved_is_web_address(input: Seq<char>)
    ensures
        "http://"@.is_prefix_of(resolved_address(input)) || "https://"@.is_prefix_of(
            resolved_address(input),
        ),
{
    reveal_strlit("http://");
    reveal_strlit("https://");
    reveal_strlit("https://duckduckgo.com/?q=");
    let t = trim(input);
    let r = resolved_address(input);
    if "http://"@.is_prefix_of(t) || "https://"@.is_prefix_of(t) {
    } else if t.contains('.') && !t.contains(' ') {
        assert("https://"@ =~= r.subrange(0, 8));
    } else {
        assert("https://"@ =~= r.subrange(0, 8));
    }
}

} // verus!
