use vstd::prelude::*;

use std::collections::HashMap;
use std::time::Instant;

use crate::tabs::{idle_secs_between, new_tab_view, Tab, TabState, TabView};

verus! {

broadcast use {vstd::std_specs::hash::group_hash_axioms, vstd::string::group_string_axioms};

/// The contents of a tab store: the open tabs by ID, the active tab's ID
/// (0 when none has been chosen) and the ID the next opened tab gets.
pub struct TabStoreView {
    pub tabs: Map<u32, TabView>,
    pub active_id: u32,
    pub next_id: u32,
}

/// `t` with its state replaced.
pub open spec fn with_state(t: TabView, state: TabState) -> TabView {
    TabView {
        id: t.id,
        url: t.url,
        title: t.title,
        state,
        memory_kb: t.memory_kb,
        last_active: t.last_active,
    }
}

/// `t` with its title replaced.
pub open spec fn with_title(t: TabView, title: Seq<char>) -> TabView {
    TabView {
        id: t.id,
        url: t.url,
        title,
        state: t.state,
        memory_kb: t.memory_kb,
        last_active: t.last_active,
    }
}

/// `t` with its URL replaced.
pub open spec fn with_url(t: TabView, url: Seq<char>) -> TabView {
    TabView {
        id: t.id,
        url,
        title: t.title,
        state: t.state,
        memory_kb: t.memory_kb,
        last_active: t.last_active,
    }
}

/// `t` with its memory use replaced.
pub open spec fn with_memory(t: TabView, memory_kb: u64) -> TabView {
    TabView {
        id: t.id,
        url: t.url,
        title: t.title,
        state: t.state,
        memory_kb,
        last_active: t.last_active,
    }
}

/// `t` made active at `now`.
pub open spec fn activated(t: TabView, now: Instant) -> TabView {
    TabView {
        id: t.id,
        url: t.url,
        title: t.title,
        state: TabState::Active,
        memory_kb: t.memory_kb,
        last_active: now,
    }
}

/// `m` with the tab under `id` replaced by `t`, if there is one.
pub open spec fn replace_tab(m: Map<u32, TabView>, id: u32, t: TabView) -> Map<u32, TabView> {
    if m.contains_key(id) {
        m.insert(id, t)
    } else {
        m
    }
}

impl TabStoreView {
    /// IDs start at 1 and every open tab sits under its own ID, which is
    /// below the next ID to hand out.
    pub open spec fn wf(self) -> bool {
        &&& self.next_id >= 1
        &&& forall|k: u32| #[trigger]
            self.tabs.contains_key(k) ==> 1 <= k < self.next_id && self.tabs[k].id == k
    }

    /// The store after opening a tab on `url` at `now`: it gets the next ID.
    pub open spec fn open_tab(self, url: Seq<char>, now: Instant) -> TabStoreView {
        TabStoreView {
            tabs: self.tabs.insert(self.next_id, new_tab_view(self.next_id, url, now)),
            active_id: self.active_id,
            next_id: (self.next_id + 1) as u32,
        }
    }

    /// The store after closing the tab `id`.
    pub open spec fn close_tab(self, id: u32) -> TabStoreView {
        TabStoreView { tabs: self.tabs.remove(id), active_id: self.active_id, next_id: self.next_id }
    }

    /// The store after making `id` the active tab at `now`: the previously
    /// active tab, if it is another one that is still open and `Active`,
    /// moves to `Background`; the tab `id`, if open, becomes `Active` and
    /// last active at `now`; and `id` is recorded as active whether or not it
    /// is open. Every other tab stays as it was.
    pub open spec fn activate(self, id: u32, now: Instant) -> TabStoreView {
        let prev = self.active_id;
        let m1 = if prev != 0 && prev != id && self.tabs.contains_key(prev)
            && self.tabs[prev].state == TabState::Active {
            self.tabs.insert(prev, with_state(self.tabs[prev], TabState::Background))
        } else {
            self.tabs
        };
        let m2 = replace_tab(m1, id, activated(m1[id], now));
        TabStoreView { tabs: m2, active_id: id, next_id: self.next_id }
    }

    /// The store with the tabs replaced.
    pub open spec fn with_tabs(self, tabs: Map<u32, TabView>) -> TabStoreView {
        TabStoreView { tabs, active_id: self.active_id, next_id: self.next_id }
    }
}

/// The tabs of `m` whose IDs are below `n`, in increasing order of ID.
pub open spec fn tabs_below(m: Map<u32, TabView>, n: nat) -> Seq<TabView>
    decreases n,
{
    if n == 0 {
        Seq::empty()
    } else {
        let prev = tabs_below(m, (n - 1) as nat);
        if m.contains_key((n - 1) as u32) {
            prev.push(m[(n - 1) as u32])
        } else {
            prev
        }
    }
}

/// All the tabs of `m`, in increasing order of ID.
pub open spec fn sorted_tabs(m: Map<u32, TabView>) -> Seq<TabView> {
    tabs_below(m, 0x1_0000_0000)
}

/// The total memory use of the tabs in `s`.
pub open spec fn memory_total(s: Seq<TabView>) -> int
    decreases s.len(),
{
    if s.len() == 0 {
        0
    } else {
        memory_total(s.drop_last()) + s.last().memory_kb
    }
}

/// How many tabs in `s` are alive: not hibernated.
pub open spec fn alive_count(s: Seq<TabView>) -> nat
    decreases s.len(),
{
    if s.len() == 0 {
        0
    } else {
        alive_count(s.drop_last()) + if !(s.last().state is Hibernated) {
            1nat
        } else {
            0nat
        }
    }
}

/// The tabs of `s` that are in the background, in the same order.
pub open spec fn background_tabs(s: Seq<TabView>) -> Seq<TabView>
    decreases s.len(),
{
    if s.len() == 0 {
        Seq::empty()
    } else if s.last().state is Background {
        background_tabs(s.drop_last()).push(s.last())
    } else {
        background_tabs(s.drop_last())
    }
}

/// The tabs of `s` due for hibernation when the tab at position `i` of
/// `s` has been idle for `idle[i]` seconds: the background tabs idle for at
/// least `threshold` seconds, in the same order.
pub open spec fn idle_due_tabs(s: Seq<TabView>, idle: Seq<u64>, threshold: u64) -> Seq<TabView>
    decreases s.len(),
{
    if s.len() == 0 {
        Seq::empty()
    } else {
        let rest = idle_due_tabs(s.drop_last(), idle, threshold);
        if s.last().state is Background && idle[s.len() - 1] >= threshold {
            rest.push(s.last())
        } else {
            rest
        }
    }
}

/// How long each tab of `s` has been idle at `now`, in whole seconds.
pub open spec fn idle_times(s: Seq<TabView>, now: Instant) -> Seq<u64> {
    s.map_values(|t: TabView| idle_secs_between(t.last_active, now))
}

/// `s` lists tabs of `m`, each as `m` holds it, in strictly increasing
/// order of ID.
pub open spec fn lists_in_id_order(s: Seq<TabView>, m: Map<u32, TabView>) -> bool {
    &&& forall|i: int, j: int| 0 <= i < j < s.len() ==> s[i].id < s[j].id
    &&& forall|i: int| 0 <= i < s.len() ==> m.contains_key(#[trigger] s[i].id) && m[s[i].id] == s[i]
}

/// Every tab of `m` appears in `s`.
pub open spec fn lists_every_tab(s: Seq<TabView>, m: Map<u32, TabView>) -> bool {
    forall|k: u32| #[trigger]
        m.contains_key(k) ==> exists|i: int| 0 <= i < s.len() && s[i].id == k
}

/// Tab IDs match the keys they are stored under.
pub open spec fn ids_match_keys(m: Map<u32, TabView>) -> bool {
    forall|k: u32| #[trigger] m.contains_key(k) ==> m[k].id == k
}

/// Past the largest key, listing more IDs adds nothing.
pub proof fn lemma_tabs_below_past_keys(m: Map<u32, TabView>, n: nat, big: nat)
    requires
        n <= big <= 0x1_0000_0000,
        forall|k: u32| #[trigger] m.contains_key(k) ==> (k as nat) < n,
    ensures
        tabs_below(m, big) == tabs_below(m, n),
    decreases big,
{
    if big > n {
        lemma_tabs_below_past_keys(m, n, (big - 1) as nat);
        assert(!m.contains_key((big - 1) as u32));
    }
}

/// The listing below `n` holds, in order of ID, exactly the tabs of `m`
/// whose IDs are below `n`.
pub proof fn lemma_tabs_below_listing(m: Map<u32, TabView>, n: nat)
    requires
        n <= 0x1_0000_0000,
        ids_match_keys(m),
    ensures
        lists_in_id_order(tabs_below(m, n), m),
        forall|i: int| 0 <= i < tabs_below(m, n).len() ==> (#[trigger] tabs_below(m, n)[i].id as nat)
            < n,
        forall|k: u32| #[trigger]
            m.contains_key(k) && (k as nat) < n ==> exists|i: int|
                0 <= i < tabs_below(m, n).len() && tabs_below(m, n)[i].id == k,
        tabs_below(m, n).len() <= n,
    decreases n,
{
    if n > 0 {
        let p = (n - 1) as nat;
        lemma_tabs_below_listing(m, p);
        let prev = tabs_below(m, p);
        let s = tabs_below(m, n);
        let key = p as u32;
        if m.contains_key(key) {
            assert(s == prev.push(m[key]));
            assert(s[s.len() - 1].id == key);
            assert forall|k: u32| #[trigger]
                m.contains_key(k) && (k as nat) < n implies exists|i: int|
                0 <= i < s.len() && s[i].id == k by {
                if (k as nat) < p {
                    let i = choose|i: int| 0 <= i < prev.len() && prev[i].id == k;
                    assert(s[i] == prev[i]);
                } else {
                    assert(k == key);
                    assert(s[s.len() - 1].id == k);
                }
            }
            assert forall|i: int| 0 <= i < s.len() implies m.contains_key(#[trigger] s[i].id)
                && m[s[i].id] == s[i] by {
                if i < prev.len() {
                    assert(s[i] == prev[i]);
                }
            }
            assert forall|i: int| 0 <= i < s.len() implies (#[trigger] s[i].id as nat) < n by {
                if i < prev.len() {
                    assert(s[i] == prev[i]);
                }
            }
            assert forall|i: int, j: int| 0 <= i < j < s.len() implies s[i].id < s[j].id by {
                assert(s[i] == prev[i]);
                if j < prev.len() {
                    assert(s[j] == prev[j]);
                }
            }
        } else {
            assert forall|k: u32| #[trigger]
                m.contains_key(k) && (k as nat) < n implies exists|i: int|
                0 <= i < s.len() && s[i].id == k by {
                assert(k != key);
            }
        }
    }
}

/// All tabs of `m`, as `sorted_tabs` lists them: in strictly increasing
/// order of ID, each as `m` holds it, with none left out.
pub proof fn lemma_sorted_tabs_listing(m: Map<u32, TabView>)
    requires
        ids_match_keys(m),
    ensures
        lists_in_id_order(sorted_tabs(m), m),
        lists_every_tab(sorted_tabs(m), m),
{
    lemma_tabs_below_listing(m, 0x1_0000_0000);
}

/// Listing fewer IDs gives a prefix of the listing of more.
pub proof fn lemma_tabs_below_prefix(m: Map<u32, TabView>, i: nat, j: nat)
    requires
        i <= j,
    ensures
        tabs_below(m, i).len() <= tabs_below(m, j).len(),
        tabs_below(m, j).subrange(0, tabs_below(m, i).len() as int) == tabs_below(m, i),
    decreases j,
{
    if j > i {
        let p = (j - 1) as nat;
        lemma_tabs_below_prefix(m, i, p);
        let a = tabs_below(m, i);
        let b = tabs_below(m, p);
        if m.contains_key(p as u32) {
            assert(tabs_below(m, j).subrange(0, a.len() as int) =~= b.subrange(0, a.len() as int));
        }
    } else {
        assert(tabs_below(m, j).subrange(0, tabs_below(m, i).len() as int) =~= tabs_below(m, i));
    }
}

/// The memory total of a listing only grows as more IDs are listed.
pub proof fn lemma_memory_total_grows(m: Map<u32, TabView>, i: nat, j: nat)
    requires
        i <= j,
    ensures
        memory_total(tabs_below(m, i)) <= memory_total(tabs_below(m, j)),
    decreases j,
{
    if j > i {
        lemma_memory_total_grows(m, i, (j - 1) as nat);
        let p = (j - 1) as nat;
        if m.contains_key(p as u32) {
            assert(tabs_below(m, j).drop_last() =~= tabs_below(m, p));
        }
    }
}

/// The alive count is the number of tabs whose state is not `Hibernated`:
/// it depends on the tabs' states alone.
pub proof fn lemma_alive_count_counts_states(s: Seq<TabView>)
    ensures
        alive_count(s) == s.filter(|t: TabView| !(t.state is Hibernated)).len(),
    decreases s.len(),
{
    reveal(Seq::filter);
    if s.len() > 0 {
        lemma_alive_count_counts_states(s.drop_last());
    }
}

/// At most one tab is alive per listed ID.
proof fn lemma_alive_count_bounded(m: Map<u32, TabView>, n: nat)
    ensures
        alive_count(tabs_below(m, n)) <= n,
    decreases n,
{
    if n > 0 {
        let p = (n - 1) as nat;
        lemma_alive_count_bounded(m, p);
        if m.contains_key(p as u32) {
            assert(tabs_below(m, n).drop_last() =~= tabs_below(m, p));
        }
    }
}

/// With a zero threshold every background tab is due, whatever the idle
/// times.
pub proof fn lemma_idle_due_tabs_threshold_zero(s: Seq<TabView>, idle: Seq<u64>)
    ensures
        idle_due_tabs(s, idle, 0) == background_tabs(s),
    decreases s.len(),
{
    if s.len() > 0 {
        lemma_idle_due_tabs_threshold_zero(s.drop_last(), idle);
    }
}

/// The views of the tabs of `m`.
pub open spec fn tab_views(m: Map<u32, Tab>) -> Map<u32, TabView> {
    m.map_values(|t: Tab| t@)
}

/// A store of all open tabs, keyed by tab ID.
pub struct TabStore {
    tabs: HashMap<u32, Tab>,
    /// Which tab is currently active
    active_id: u32,
    /// Counter for generating unique tab IDs
    next_id: u32,
}

impl View for TabStore {
    type V = TabStoreView;

    closed spec fn view(&self) -> TabStoreView {
        TabStoreView {
            tabs: tab_views(self.tabs@),
            active_id: self.active_id,
            next_id: self.next_id,
        }
    }
}

impl TabStore {
    /// Every store is well formed.
    #[verifier::type_invariant]
    spec fn well_formed(self) -> bool {
        self@.wf()
    }

    /// The store is well formed.
    pub open spec fn wf(&self) -> bool {
        self@.wf()
    }

    /// Takes the tabs out of the store, leaving it empty.
    fn take_tabs(&mut self) -> (tabs: HashMap<u32, Tab>)
        ensures
            tabs@ == old(self).tabs@,
            final(self)@ == old(self)@.with_tabs(Map::empty()),
    {
        proof {
            use_type_invariant(&*self);
        }
        let mut tabs: HashMap<u32, Tab> = HashMap::new();
        assert(tab_views(tabs@) =~= Map::<u32, TabView>::empty());
        std::mem::swap(&mut tabs, &mut self.tabs);
        assert(tab_views(self.tabs@) =~= Map::<u32, TabView>::empty());
        tabs
    }

    /// An empty store: no tabs, none active, IDs starting at 1.
    pub fn new() -> (s: Self)
        ensures
            s.wf(),
            s@.tabs == Map::<u32, TabView>::empty(),
            s@.active_id == 0,
            s@.next_id == 1,
    {
        let s = TabStore { tabs: HashMap::new(), active_id: 0, next_id: 1 };
        assert(s@.tabs =~= Map::<u32, TabView>::empty());
        s
    }

    /// The ID the next opened tab gets.
    pub fn next_id(&self) -> (r: u32)
        ensures
            r == self@.next_id,
    {
        self.next_id
    }

    /// Open a new tab with the given URL; returns the new tab's ID.
    pub fn open(&mut self, url: &str) -> (id: u32)
        requires
            old(self)@.next_id < u32::MAX,
        ensures
            final(self).wf(),
            id == old(self)@.next_id,
            !old(self)@.tabs.contains_key(id),
            forall|k: u32| #[trigger] old(self)@.tabs.contains_key(k) ==> k < id,
            final(self)@ == old(self)@.open_tab(url@, final(self)@.tabs[id].last_active),
    {
        proof {
            use_type_invariant(&*self);
        }
        let id = self.next_id;
        let mut tabs = self.take_tabs();
        self.next_id = id + 1;
        let tab = Tab::new(id, url);
        let ghost tab_now = tab.last_active;
        tabs.insert(id, tab);
        assert(tab_views(tabs@) =~= old(self)@.tabs.insert(id, new_tab_view(id, url@, tab_now)));
        self.tabs = tabs;
        id
    }

    /// Close a tab by ID.
    pub fn close(&mut self, id: u32)
        ensures
            final(self).wf(),
            final(self)@ == old(self)@.close_tab(id),
    {
        proof {
            use_type_invariant(&*self);
        }
        let mut tabs = self.take_tabs();
        tabs.remove(&id);
        assert(tab_views(tabs@) =~= old(self)@.tabs.remove(id));
        self.tabs = tabs;
    }

    /// Set which tab is currently active: the previously active tab moves
    /// to the background, the new one becomes active, last active now (the
    /// clock reading taken by the call).
    pub fn set_active(&mut self, id: u32)
        ensures
            final(self).wf(),
            final(self)@ == old(self)@.activate(id, final(self)@.tabs[id].last_active),
    {
        proof {
            use_type_invariant(&*self);
        }
        let current = self.active_id;
        let ghost m0 = self@.tabs;
        let mut tabs = self.take_tabs();
        if current != 0 && current != id {
            match tabs.remove(&current) {
                Some(tab) => {
                    let mut tab = tab;
                    if tab.state == TabState::Active {
                        tab.state = TabState::Background;
                    }
                    tabs.insert(current, tab);
                },
                None => {},
            }
        }
        let ghost m1 = if current != 0 && current != id && m0.contains_key(current)
            && m0[current].state == TabState::Active {
            m0.insert(current, with_state(m0[current], TabState::Background))
        } else {
            m0
        };
        assert(tab_views(tabs@) =~= m1);
        match tabs.remove(&id) {
            Some(tab) => {
                let mut tab = tab;
                tab.state = TabState::Active;
                tab.last_active = Instant::now();
                tabs.insert(id, tab);
            },
            None => {},
        }
        assert(tab_views(tabs@) =~= replace_tab(
            m1,
            id,
            activated(m1[id], tab_views(tabs@)[id].last_active),
        ));
        self.active_id = id;
        self.tabs = tabs;
    }

    /// Get the currently active tab ID.
    pub fn active_id(&self) -> (r: u32)
        ensures
            r == self@.active_id,
    {
        self.active_id
    }

    /// Get a snapshot of all tabs, sorted by ID.
    pub fn get_all(&self) -> (r: Vec<Tab>)
        ensures
            r@.map_values(|t: Tab| t@) == sorted_tabs(self@.tabs),
            lists_in_id_order(r@.map_values(|t: Tab| t@), self@.tabs),
            lists_every_tab(r@.map_values(|t: Tab| t@), self@.tabs),
    {
        proof {
            use_type_invariant(self);
        }
        let mut out: Vec<Tab> = Vec::new();
        let mut i: u32 = 0;
        while i < self.next_id
            invariant
                self.wf(),
                i <= self.next_id,
                out@.map_values(|t: Tab| t@) == tabs_below(self@.tabs, i as nat),
            decreases self.next_id - i,
        {
            let ghost prev = out@.map_values(|t: Tab| t@);
            match self.tabs.get(&i) {
                Some(tab) => {
                    out.push(tab.duplicate());
                    assert(out@.map_values(|t: Tab| t@) =~= prev.push(self@.tabs[i]));
                },
                None => {},
            }
            i += 1;
        }
        proof {
            lemma_tabs_below_past_keys(self@.tabs, self.next_id as nat, 0x1_0000_0000);
            lemma_sorted_tabs_listing(self@.tabs);
        }
        out
    }

    /// Get total RAM used across all tabs.
    pub fn total_memory_kb(&self) -> (r: u64)
        requires
            memory_total(sorted_tabs(self@.tabs)) <= u64::MAX,
        ensures
            r == memory_total(sorted_tabs(self@.tabs)),
    {
        proof {
            use_type_invariant(self);
        }
        proof {
            lemma_tabs_below_past_keys(self@.tabs, self.next_id as nat, 0x1_0000_0000);
        }
        let mut sum: u64 = 0;
        let mut i: u32 = 0;
        while i < self.next_id
            invariant
                self.wf(),
                i <= self.next_id,
                sum == memory_total(tabs_below(self@.tabs, i as nat)),
                memory_total(tabs_below(self@.tabs, self.next_id as nat)) <= u64::MAX,
            decreases self.next_id - i,
        {
            proof {
                lemma_memory_total_grows(self@.tabs, (i + 1) as nat, self.next_id as nat);
            }
            match self.tabs.get(&i) {
                Some(tab) => {
                    assert(tabs_below(self@.tabs, (i + 1) as nat).drop_last() =~= tabs_below(
                        self@.tabs,
                        i as nat,
                    ));
                    sum = sum + tab.memory_kb;
                },
                None => {},
            }
            i += 1;
        }
        sum
    }

    /// Update a tab's title.
    pub fn set_title(&mut self, id: u32, title: &str)
        ensures
            final(self).wf(),
            final(self)@ == old(self)@.with_tabs(
                replace_tab(old(self)@.tabs, id, with_title(old(self)@.tabs[id], title@)),
            ),
    {
        proof {
            use_type_invariant(&*self);
        }
        let mut tabs = self.take_tabs();
        match tabs.remove(&id) {
            Some(tab) => {
                let mut tab = tab;
                tab.title = String::from_str(title);
                tabs.insert(id, tab);
            },
            None => {},
        }
        assert(tab_views(tabs@) =~= replace_tab(
            old(self)@.tabs,
            id,
            with_title(old(self)@.tabs[id], title@),
        ));
        self.tabs = tabs;
    }

    /// Update a tab's URL.
    pub fn set_url(&mut self, id: u32, url: &str)
        ensures
            final(self).wf(),
            final(self)@ == old(self)@.with_tabs(
                replace_tab(old(self)@.tabs, id, with_url(old(self)@.tabs[id], url@)),
            ),
    {
        proof {
            use_type_invariant(&*self);
        }
        let mut tabs = self.take_tabs();
        match tabs.remove(&id) {
            Some(tab) => {
                let mut tab = tab;
                tab.url = String::from_str(url);
                tabs.insert(id, tab);
            },
            None => {},
        }
        assert(tab_views(tabs@) =~= replace_tab(
            old(self)@.tabs,
            id,
            with_url(old(self)@.tabs[id], url@),
        ));
        self.tabs = tabs;
    }

    /// Update a tab's state.
    pub fn set_state(&mut self, id: u32, state: TabState)
        ensures
            final(self).wf(),
            final(self)@ == old(self)@.with_tabs(
                replace_tab(old(self)@.tabs, id, with_state(old(self)@.tabs[id], state)),
            ),
    {
        proof {
            use_type_invariant(&*self);
        }
        let mut tabs = self.take_tabs();
        match tabs.remove(&id) {
            Some(tab) => {
                let mut tab = tab;
                tab.state = state;
                tabs.insert(id, tab);
            },
            None => {},
        }
        assert(tab_views(tabs@) =~= replace_tab(
            old(self)@.tabs,
            id,
            with_state(old(self)@.tabs[id], state),
        ));
        self.tabs = tabs;
    }

    /// Record a tab's approximate memory use.
    pub fn set_memory_kb(&mut self, id: u32, memory_kb: u64)
        ensures
            final(self).wf(),
            final(self)@ == old(self)@.with_tabs(
                replace_tab(old(self)@.tabs, id, with_memory(old(self)@.tabs[id], memory_kb)),
            ),
    {
        proof {
            use_type_invariant(&*self);
        }
        let mut tabs = self.take_tabs();
        match tabs.remove(&id) {
            Some(tab) => {
                let mut tab = tab;
                tab.memory_kb = memory_kb;
                tabs.insert(id, tab);
            },
            None => {},
        }
        assert(tab_views(tabs@) =~= replace_tab(
            old(self)@.tabs,
            id,
            with_memory(old(self)@.tabs[id], memory_kb),
        ));
        self.tabs = tabs;
    }

    /// The tabs due for hibernation given how long each has been idle:
    /// `idle[i]` is the idle time in seconds of the tab at position `i` of
    /// the listing in order of ID. They are the background tabs idle for at
    /// least `idle_threshold_secs` seconds, in order of ID.
    pub fn hibernatable_tabs_given(&self, idle: &Vec<u64>, idle_threshold_secs: u64) -> (r: Vec<
        Tab,
    >)
        requires
            idle.len() == sorted_tabs(self@.tabs).len(),
        ensures
            r@.map_values(|t: Tab| t@) == idle_due_tabs(
                sorted_tabs(self@.tabs),
                idle@,
                idle_threshold_secs,
            ),
            lists_in_id_order(r@.map_values(|t: Tab| t@), self@.tabs),
            forall|i: int| 0 <= i < r.len() ==> (#[trigger] r@[i]).state is Background,
    {
        proof {
            use_type_invariant(self);
        }
        proof {
            lemma_tabs_below_past_keys(self@.tabs, self.next_id as nat, 0x1_0000_0000);
        }
        let mut out: Vec<Tab> = Vec::new();
        let mut i: u32 = 0;
        let mut pos: usize = 0;
        while i < self.next_id
            invariant
                self.wf(),
                i <= self.next_id,
                idle.len() == sorted_tabs(self@.tabs).len(),
                sorted_tabs(self@.tabs) == tabs_below(self@.tabs, self.next_id as nat),
                pos == tabs_below(self@.tabs, i as nat).len(),
                out@.map_values(|t: Tab| t@) == idle_due_tabs(
                    tabs_below(self@.tabs, i as nat),
                    idle@,
                    idle_threshold_secs,
                ),
                lists_in_id_order(out@.map_values(|t: Tab| t@), self@.tabs),
                forall|j: int| 0 <= j < out.len() ==> (#[trigger] out@[j]).id < i,
                forall|j: int| 0 <= j < out.len() ==> (#[trigger] out@[j]).state is Background,
            decreases self.next_id - i,
        {
            let ghost prev = out@;
            let ghost listed = tabs_below(self@.tabs, (i + 1) as nat);
            match self.tabs.get(&i) {
                Some(tab) => {
                    proof {
                        lemma_tabs_below_prefix(self@.tabs, (i + 1) as nat, self.next_id as nat);
                    }
                    assert(listed.drop_last() =~= tabs_below(self@.tabs, i as nat));
                    if tab.should_hibernate_after(idle[pos], idle_threshold_secs) {
                        out.push(tab.duplicate());
                        assert(out@.map_values(|t: Tab| t@) =~= prev.map_values(|t: Tab| t@).push(
                            self@.tabs[i],
                        ));
                        assert forall|j: int| 0 <= j < out.len() implies (#[trigger] out@[j]).id
                            <= i by {
                            if j < prev.len() {
                                assert(out@[j] == prev[j]);
                            }
                        }
                    }
                    pos = pos + 1;
                },
                None => {},
            }
            i += 1;
        }
        out
    }

    /// Get tabs eligible for hibernation: background tabs idle for at
    /// least `idle_threshold_secs` seconds, in order of ID, with the idle
    /// times taken at one clock reading made by the call.
    pub fn hibernatable_tabs(&self, idle_threshold_secs: u64) -> (r: Vec<Tab>)
        ensures
            exists|now: Instant|
                r@.map_values(|t: Tab| t@) == idle_due_tabs(
                    sorted_tabs(self@.tabs),
                    #[trigger] idle_times(sorted_tabs(self@.tabs), now),
                    idle_threshold_secs,
                ),
            lists_in_id_order(r@.map_values(|t: Tab| t@), self@.tabs),
            forall|i: int| 0 <= i < r.len() ==> (#[trigger] r@[i]).state is Background,
            idle_threshold_secs == 0 ==> r@.map_values(|t: Tab| t@) == background_tabs(
                sorted_tabs(self@.tabs),
            ),
    {
        proof {
            use_type_invariant(self);
        }
        proof {
            lemma_tabs_below_past_keys(self@.tabs, self.next_id as nat, 0x1_0000_0000);
        }
        let now = Instant::now();
        let mut idle: Vec<u64> = Vec::new();
        let mut i: u32 = 0;
        while i < self.next_id
            invariant
                self.wf(),
                i <= self.next_id,
                idle@ == idle_times(tabs_below(self@.tabs, i as nat), now),
            decreases self.next_id - i,
        {
            let ghost prev = idle@;
            match self.tabs.get(&i) {
                Some(tab) => {
                    idle.push(tab.idle_secs_at(now));
                    assert(idle@ =~= idle_times(tabs_below(self@.tabs, (i + 1) as nat), now));
                },
                None => {},
            }
            i += 1;
        }
        let r = self.hibernatable_tabs_given(&idle, idle_threshold_secs);
        proof {
            lemma_idle_due_tabs_threshold_zero(sorted_tabs(self@.tabs), idle@);
        }
        r
    }

    /// How many tabs are currently alive (not hibernated).
    pub fn active_count(&self) -> (r: usize)
        ensures
            r == alive_count(sorted_tabs(self@.tabs)),
            r == sorted_tabs(self@.tabs).filter(|t: TabView| !(t.state is Hibernated)).len(),
    {
        proof {
            use_type_invariant(self);
        }
        proof {
            lemma_tabs_below_past_keys(self@.tabs, self.next_id as nat, 0x1_0000_0000);
        }
        proof {
            lemma_alive_count_counts_states(sorted_tabs(self@.tabs));
        }
        let mut count: usize = 0;
        let mut i: u32 = 0;
        while i < self.next_id
            invariant
                self.wf(),
                i <= self.next_id,
                count == alive_count(tabs_below(self@.tabs, i as nat)),
            decreases self.next_id - i,
        {
            proof {
                lemma_alive_count_bounded(self@.tabs, i as nat);
            }
            match self.tabs.get(&i) {
                Some(tab) => {
                    assert(tabs_below(self@.tabs, (i + 1) as nat).drop_last() =~= tabs_below(
                        self@.tabs,
                        i as nat,
                    ));
                    match tab.state {
                        TabState::Hibernated => {},
                        _ => {
                            count = count + 1;
                        },
                    }
                },
                None => {},
            }
            i += 1;
        }
        count
    }
}

} // verus!
