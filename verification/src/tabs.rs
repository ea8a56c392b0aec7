use vstd::prelude::*;

use std::time::{Duration, Instant};

verus! {

broadcast use vstd::string::group_string_axioms;

/// `std::time::Instant`, a point in time read from the monotonic clock.
#[verifier::external_type_specification]
#[verifier::external_body]
pub struct ExInstant(Instant);

/// `Instant::now` reads the clock: nothing is promised of what it returns.
pub assume_specification[ Instant::now ]() -> Instant;

/// The time from `earlier` to `later`, zero when `later` is not after it:
/// what `later.saturating_duration_since(earlier)` returns, a function of
/// the two instants alone.
pub uninterp spec fn duration_between(later: Instant, earlier: Instant) -> Duration;

/// The whole seconds of a duration: what `Duration::as_secs` returns.
pub uninterp spec fn duration_secs(d: Duration) -> u64;

/// `Instant::saturating_duration_since` returns the named duration from
/// `earlier` to `this`; it does not panic.
pub assume_specification[ Instant::saturating_duration_since ](
    this: &Instant,
    earlier: Instant,
) -> (r: Duration)
    ensures
        r == duration_between(*this, earlier),
;

/// `Instant` is `Copy`, so its `clone` returns the same instant. The
/// derived `Clone` of `Tab` calls it.
pub assume_specification[ <Instant as Clone>::clone ](this: &Instant) -> (r: Instant)
    ensures
        r == *this,
;

/// `Duration::as_secs` returns the named whole seconds of the duration.
pub assume_specification[ Duration::as_secs ](this: &Duration) -> (r: u64)
    ensures
        r == duration_secs(*this),
;

/// The whole seconds from `last_active` to `now`, zero when `now` is not
/// after it.
pub open spec fn idle_secs_between(last_active: Instant, now: Instant) -> u64 {
    duration_secs(duration_between(now, last_active))
}

/// All possible states a tab can be in.
#[derive(Debug, Clone, Copy, PartialEq, Eq, Structural)]
pub enum TabState {
    /// Just created, not yet loaded
    New,
    /// Currently loading a page
    Loading,
    /// Loaded and currently visible to user
    Active,
    /// Loaded but in background (not visible)
    Background,
    /// Suspended: renderer destroyed, just URL and title kept
    Hibernated,
    /// Renderer crashed
    Crashed,
}

impl TabState {
    /// Whether a tab in this state holds a renderer.
    pub open spec fn holds_renderer(self) -> bool {
        self is Loading || self is Active || self is Background
    }

    /// Can this tab be hibernated right now?
    pub fn is_hibernatable(&self) -> (b: bool)
        ensures
            b == (*self is Background),
    {
        match self {
            TabState::Background => true,
            _ => false,
        }
    }

    /// Is this tab currently consuming renderer RAM?
    pub fn has_renderer(&self) -> (b: bool)
        ensures
            b == self.holds_renderer(),
    {
        match self {
            TabState::Loading | TabState::Active | TabState::Background => true,
            _ => false,
        }
    }
}

/// Only a tab that holds a renderer can be hibernated, and a hibernated,
/// crashed or new tab holds none.
pub proof fn lemma_hibernatable_holds_renderer(s: TabState)
    ensures
        s is Background ==> s.holds_renderer(),
        (s is Hibernated || s is Crashed || s is New) ==> !s.holds_renderer(),
{
}

/// What a tab is.
pub struct TabView {
    pub id: u32,
    pub url: Seq<char>,
    pub title: Seq<char>,
    pub state: TabState,
    pub memory_kb: u64,
    pub last_active: Instant,
}

/// A single browser tab.
#[derive(Debug, Clone)]
pub struct Tab {
    /// Unique ID for this tab
    pub id: u32,
    /// Current URL
    pub url: String,
    /// Page title (from the title tag)
    pub title: String,
    /// Current state
    pub state: TabState,
    /// Approximate RAM usage in KB (0 if hibernated)
    pub memory_kb: u64,
    /// When the user last had this tab active
    pub last_active: Instant,
}

impl View for Tab {
    type V = TabView;

    open spec fn view(&self) -> TabView {
        TabView {
            id: self.id,
            url: self.url@,
            title: self.title@,
            state: self.state,
            memory_kb: self.memory_kb,
            last_active: self.last_active,
        }
    }
}

/// A freshly opened tab: state `New`, title "New Tab", no memory, last
/// active at `now`.
pub open spec fn new_tab_view(id: u32, url: Seq<char>, now: Instant) -> TabView {
    TabView { id, url, title: "New Tab"@, state: TabState::New, memory_kb: 0, last_active: now }
}

impl Tab {
    /// A new tab with the given ID and URL, last active at `now`.
    pub fn new_at(id: u32, url: &str, now: Instant) -> (t: Self)
        ensures
            t@ == new_tab_view(id, url@, now),
    {
        Tab {
            id,
            url: String::from_str(url),
            title: String::from_str("New Tab"),
            state: TabState::New,
            memory_kb: 0,
            last_active: now,
        }
    }

    /// A new tab with the given ID and URL, last active now (the clock
    /// reading taken by the call).
    pub fn new(id: u32, url: &str) -> (t: Self)
        ensures
            t@ == new_tab_view(id, url@, t.last_active),
    {
        Tab::new_at(id, url, Instant::now())
    }

    /// A copy of this tab.
    pub(crate) fn duplicate(&self) -> (t: Self)
        ensures
            t@ == self@,
    {
        Tab {
            id: self.id,
            url: self.url.clone(),
            title: self.title.clone(),
            state: self.state,
            memory_kb: self.memory_kb,
            last_active: self.last_active,
        }
    }

    /// How long this tab has been idle at `now`, in whole seconds.
    pub fn idle_secs_at(&self, now: Instant) -> (r: u64)
        ensures
            r == idle_secs_between(self.last_active, now),
    {
        let elapsed = now.saturating_duration_since(self.last_active);
        elapsed.as_secs()
    }

    /// How long since this tab was last active (in seconds), as of a clock
    /// reading taken by the call.
    pub fn idle_secs(&self) -> (r: u64)
        ensures
            exists|now: Instant| r == #[trigger] idle_secs_between(self.last_active, now),
    {
        let now = Instant::now();
        self.idle_secs_at(now)
    }

    /// Whether a tab idle for `idle_secs` seconds is due for hibernation
    /// under `idle_threshold_secs`.
    pub fn should_hibernate_after(&self, idle_secs: u64, idle_threshold_secs: u64) -> (b: bool)
        ensures
            b == (self.state is Background && idle_secs >= idle_threshold_secs),
    {
        self.state.is_hibernatable() && idle_secs >= idle_threshold_secs
    }

    /// Should this tab be auto-hibernated? It should when it is in the
    /// background and has been idle at least `idle_threshold_secs` seconds,
    /// as of a clock reading taken by the call.
    pub fn should_hibernate(&self, idle_threshold_secs: u64) -> (b: bool)
        ensures
            exists|now: Instant|
                b == (self.state is Background && #[trigger] idle_secs_between(
                    self.last_active,
                    now,
                ) >= idle_threshold_secs),
            idle_threshold_secs == 0 ==> b == (self.state is Background),
    {
        let now = Instant::now();
        let idle = self.idle_secs_at(now);
        self.should_hibernate_after(idle, idle_threshold_secs)
    }
}

} // verus!
