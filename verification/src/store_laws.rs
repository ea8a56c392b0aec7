use vstd::prelude::*;

use crate::tab_store::{
    alive_count, ids_match_keys, idle_due_tabs, lemma_tabs_below_past_keys, memory_total,
    replace_tab, sorted_tabs, tabs_below, with_memory, with_state, with_title, with_url,
    TabStoreView,
};
use crate::tabs::{new_tab_view, TabState, TabView};

use std::time::Instant;

verus! {

/// Opening a tab keeps the store well formed.
pub proof fn lemma_open_keeps_wf(v: TabStoreView, url: Seq<char>, now: Instant)
    requires
        v.wf(),
        v.next_id < u32::MAX,
    ensures
        v.open_tab(url, now).wf(),
{
}

/// Closing a tab keeps the store well formed.
pub proof fn lemma_close_keeps_wf(v: TabStoreView, id: u32)
    requires
        v.wf(),
    ensures
        v.close_tab(id).wf(),
{
}

/// Activating a tab keeps the store well formed and keeps the same tabs open.
pub proof fn lemma_activate_keeps_wf(v: TabStoreView, id: u32, now: Instant)
    requires
        v.wf(),
    ensures
        v.activate(id, now).wf(),
        v.activate(id, now).tabs.dom() == v.tabs.dom(),
{
    assert(v.activate(id, now).tabs.dom() =~= v.tabs.dom());
}

/// Closing the tab that was just opened gives back the tabs that were open
/// before, with the same tab active.
pub proof fn lemma_close_undoes_open(v: TabStoreView, url: Seq<char>, now: Instant)
    requires
        v.wf(),
        v.next_id < u32::MAX,
    ensures
        v.open_tab(url, now).close_tab(v.next_id).tabs == v.tabs,
        v.open_tab(url, now).close_tab(v.next_id).active_id == v.active_id,
        sorted_tabs(v.open_tab(url, now).close_tab(v.next_id).tabs) == sorted_tabs(v.tabs),
{
    assert(v.open_tab(url, now).close_tab(v.next_id).tabs =~= v.tabs);
}

proof fn lemma_tabs_below_insert_above(m: Map<u32, TabView>, key: u32, t: TabView, n: nat)
    requires
        n <= key,
    ensures
        tabs_below(m.insert(key, t), n) == tabs_below(m, n),
    decreases n,
{
    if n > 0 {
        lemma_tabs_below_insert_above(m, key, t, (n - 1) as nat);
    }
}

/// A newly opened tab comes last in the listing of all tabs, after the
/// tabs that were open before, which keep their order.
pub proof fn lemma_open_lists_new_tab_last(v: TabStoreView, url: Seq<char>, now: Instant)
    requires
        v.wf(),
        v.next_id < u32::MAX,
    ensures
        sorted_tabs(v.open_tab(url, now).tabs) == sorted_tabs(v.tabs).push(
            new_tab_view(v.next_id, url, now),
        ),
{
    let n = v.next_id;
    let m = v.tabs;
    let m2 = v.open_tab(url, now).tabs;
    lemma_tabs_below_insert_above(m, n, new_tab_view(n, url, now), n as nat);
    assert(tabs_below(m2, (n + 1) as nat) == tabs_below(m, n as nat).push(new_tab_view(n, url, now)));
    lemma_tabs_below_past_keys(m, n as nat, 0x1_0000_0000);
    assert forall|k: u32| #[trigger] m2.contains_key(k) implies (k as nat) < (n + 1) as nat by {
        if k != n {
            assert(m.contains_key(k));
        }
    }
    lemma_tabs_below_past_keys(m2, (n + 1) as nat, 0x1_0000_0000);
}

proof fn lemma_memory_below_remove(m: Map<u32, TabView>, id: u32, n: nat)
    requires
        n <= 0x1_0000_0000,
    ensures
        memory_total(tabs_below(m, n)) == memory_total(tabs_below(m.remove(id), n)) + if m.contains_key(
            id,
        ) && (id as nat) < n {
            m[id].memory_kb as int
        } else {
            0int
        },
    decreases n,
{
    if n > 0 {
        let p = (n - 1) as nat;
        lemma_memory_below_remove(m, id, p);
        let key = p as u32;
        let r = m.remove(id);
        if m.contains_key(key) {
            assert(tabs_below(m, n).drop_last() =~= tabs_below(m, p));
        }
        if r.contains_key(key) {
            assert(tabs_below(r, n).drop_last() =~= tabs_below(r, p));
        }
    }
}

/// Closing a tab takes exactly its memory off the store's total.
pub proof fn lemma_close_frees_memory(v: TabStoreView, id: u32)
    requires
        v.wf(),
    ensures
        memory_total(sorted_tabs(v.tabs)) == memory_total(sorted_tabs(v.close_tab(id).tabs))
            + if v.tabs.contains_key(id) {
            v.tabs[id].memory_kb as int
        } else {
            0int
        },
{
    lemma_memory_below_remove(v.tabs, id, 0x1_0000_0000);
}

/// Switching from tab `a` to tab `b` leaves `a` in the background and `b`
/// active, and records `b` as the active tab.
pub proof fn lemma_switching_tabs(v: TabStoreView, a: u32, b: u32, now_a: Instant, now_b: Instant)
    requires
        v.wf(),
        a != b,
        v.tabs.contains_key(a),
        v.tabs.contains_key(b),
    ensures
        v.activate(a, now_a).activate(b, now_b).tabs[a].state == TabState::Background,
        v.activate(a, now_a).activate(b, now_b).tabs[b].state == TabState::Active,
        v.activate(a, now_a).activate(b, now_b).active_id == b,
{
}

/// If no tab but the recorded active one is `Active`, that stays so after
/// making another tab active: `set_active` never leaves two tabs active.
pub proof fn lemma_activate_keeps_single_active(v: TabStoreView, id: u32, now: Instant)
    requires
        v.wf(),
        forall|k: u32| #[trigger]
            v.tabs.contains_key(k) && v.tabs[k].state == TabState::Active ==> k == v.active_id,
    ensures
        forall|k: u32| #[trigger]
            v.activate(id, now).tabs.contains_key(k) && v.activate(id, now).tabs[k].state == TabState::Active
                ==> k == id,
{
}

/// No more tabs are alive than there are tabs.
pub proof fn lemma_alive_count_at_most_tabs(s: Seq<TabView>)
    ensures
        alive_count(s) <= s.len(),
    decreases s.len(),
{
    if s.len() > 0 {
        lemma_alive_count_at_most_tabs(s.drop_last());
    }
}

/// In a well-formed store every tab sits under its own ID.
pub proof fn lemma_wf_ids_match_keys(v: TabStoreView)
    requires
        v.wf(),
    ensures
        ids_match_keys(v.tabs),
{
}

/// IDs are never handed out twice: opening a tab hands out the next ID
/// and moves it on, while closing, activating and updating tabs leave it
/// alone, so every later ID is larger. Only activation changes which tab is
/// recorded as active.
pub proof fn lemma_id_and_active_bookkeeping(
    v: TabStoreView,
    url: Seq<char>,
    now: Instant,
    id: u32,
    tabs: Map<u32, TabView>,
)
    requires
        v.wf(),
        v.next_id < u32::MAX,
    ensures
        v.open_tab(url, now).next_id == v.next_id + 1,
        forall|k: u32| #[trigger] v.tabs.contains_key(k) ==> k < v.next_id,
        v.close_tab(id).next_id == v.next_id,
        v.activate(id, now).next_id == v.next_id,
        v.with_tabs(tabs).next_id == v.next_id,
        v.open_tab(url, now).active_id == v.active_id,
        v.close_tab(id).active_id == v.active_id,
        v.with_tabs(tabs).active_id == v.active_id,
        v.activate(id, now).active_id == id,
{
}

/// A newly opened tab uses no memory, so opening leaves the total as it was.
pub proof fn lemma_open_adds_no_memory(v: TabStoreView, url: Seq<char>, now: Instant)
    requires
        v.wf(),
        v.next_id < u32::MAX,
    ensures
        memory_total(sorted_tabs(v.open_tab(url, now).tabs)) == memory_total(sorted_tabs(v.tabs)),
{
    lemma_open_lists_new_tab_last(v, url, now);
    let s = sorted_tabs(v.tabs);
    assert(s.push(new_tab_view(v.next_id, url, now)).drop_last() =~= s);
}

/// Raising the threshold only drops tabs from those due for hibernation:
/// every tab due under a higher threshold is due under a lower one.
pub proof fn lemma_hibernation_threshold_monotone(
    s: Seq<TabView>,
    idle: Seq<u64>,
    low: u64,
    high: u64,
)
    requires
        low <= high,
    ensures
        forall|t: TabView| #[trigger]
            idle_due_tabs(s, idle, high).contains(t) ==> idle_due_tabs(s, idle, low).contains(t),
    decreases s.len(),
{
    if s.len() > 0 {
        lemma_hibernation_threshold_monotone(s.drop_last(), idle, low, high);
        let rh = idle_due_tabs(s.drop_last(), idle, high);
        let rl = idle_due_tabs(s.drop_last(), idle, low);
        let h = idle_due_tabs(s, idle, high);
        let l = idle_due_tabs(s, idle, low);
        assert forall|t: TabView| #[trigger] h.contains(t) implies l.contains(t) by {
            let i = choose|i: int| 0 <= i < h.len() && h[i] == t;
            if i < rh.len() {
                assert(rh[i] == t);
                assert(rh.contains(t));
                let j = choose|j: int| 0 <= j < rl.len() && rl[j] == t;
                assert(l[j] == t);
            } else {
                assert(l[l.len() - 1] == t);
            }
        }
    }
}

/// One operation on a tab store, with the clock reading it takes where it
/// takes one.
pub enum StoreOp {
    Open(Seq<char>, Instant),
    Close(u32),
    Activate(u32, Instant),
    SetTitle(u32, Seq<char>),
    SetUrl(u32, Seq<char>),
    SetState(u32, TabState),
    SetMemory(u32, u64),
}

/// The store after one operation, as the operation's contract gives it.
pub open spec fn apply_op(v: TabStoreView, op: StoreOp) -> TabStoreView {
    match op {
        StoreOp::Open(url, now) => v.open_tab(url, now),
        StoreOp::Close(id) => v.close_tab(id),
        StoreOp::Activate(id, now) => v.activate(id, now),
        StoreOp::SetTitle(id, title) => v.with_tabs(
            replace_tab(v.tabs, id, with_title(v.tabs[id], title)),
        ),
        StoreOp::SetUrl(id, url) => v.with_tabs(replace_tab(v.tabs, id, with_url(v.tabs[id], url))),
        StoreOp::SetState(id, state) => v.with_tabs(
            replace_tab(v.tabs, id, with_state(v.tabs[id], state)),
        ),
        StoreOp::SetMemory(id, kb) => v.with_tabs(
            replace_tab(v.tabs, id, with_memory(v.tabs[id], kb)),
        ),
    }
}

/// The store after a history of operations, in order.
pub open spec fn run_ops(v: TabStoreView, ops: Seq<StoreOp>) -> TabStoreView
    decreases ops.len(),
{
    if ops.len() == 0 {
        v
    } else {
        apply_op(run_ops(v, ops.drop_last()), ops.last())
    }
}

/// The IDs that the opens of a history hand out, in order.
pub open spec fn opened_ids(v: TabStoreView, ops: Seq<StoreOp>) -> Seq<u32>
    decreases ops.len(),
{
    if ops.len() == 0 {
        Seq::empty()
    } else {
        let prev = opened_ids(v, ops.drop_last());
        match ops.last() {
            StoreOp::Open(_, _) => prev.push(run_ops(v, ops.drop_last()).next_id),
            _ => prev,
        }
    }
}

/// The active ID after a history: that of the last activation in it, or
/// the one before the history if it activates nothing.
pub open spec fn last_activated(v: TabStoreView, ops: Seq<StoreOp>) -> u32
    decreases ops.len(),
{
    if ops.len() == 0 {
        v.active_id
    } else {
        match ops.last() {
            StoreOp::Activate(id, _) => id,
            _ => last_activated(v, ops.drop_last()),
        }
    }
}

/// Over any history of operations (as long as the ID counter does not
/// fill up), the store stays well formed, the IDs handed out are strictly
/// increasing, none is 0 and none was handed out before the history, and
/// the active ID is the one last activated: no other operation changes it.
pub proof fn lemma_history(v: TabStoreView, ops: Seq<StoreOp>)
    requires
        v.wf(),
        v.next_id + ops.len() < u32::MAX,
    ensures
        run_ops(v, ops).wf(),
        v.next_id <= run_ops(v, ops).next_id <= v.next_id + ops.len(),
        forall|i: int, j: int|
            0 <= i < j < opened_ids(v, ops).len() ==> opened_ids(v, ops)[i] < opened_ids(
                v,
                ops,
            )[j],
        forall|i: int|
            0 <= i < opened_ids(v, ops).len() ==> v.next_id <= #[trigger] opened_ids(v, ops)[i]
                < run_ops(v, ops).next_id,
        run_ops(v, ops).active_id == last_activated(v, ops),
    decreases ops.len(),
{
    if ops.len() > 0 {
        let rest = ops.drop_last();
        lemma_history(v, rest);
        let w = run_ops(v, rest);
        let prev = opened_ids(v, rest);
        let cur = opened_ids(v, ops);
        match ops.last() {
            StoreOp::Open(url, now) => {
                assert(run_ops(v, ops) == w.open_tab(url, now));
                assert(run_ops(v, ops).next_id == w.next_id + 1);
                assert(cur == prev.push(w.next_id));
                assert forall|i: int, j: int| 0 <= i < j < cur.len() implies cur[i] < cur[j] by {
                    if j < prev.len() {
                        assert(cur[i] == prev[i] && cur[j] == prev[j]);
                    } else {
                        assert(cur[i] == prev[i]);
                    }
                }
                assert forall|i: int| 0 <= i < cur.len() implies v.next_id <= #[trigger] cur[i]
                    < run_ops(v, ops).next_id by {
                    if i < prev.len() {
                        assert(cur[i] == prev[i]);
                        assert(v.next_id <= prev[i] < w.next_id);
                    } else {
                        assert(cur[i] == w.next_id);
                    }
                }
            },
            _ => {
                assert(cur == prev);
            },
        }
    }
}

} // verus!
