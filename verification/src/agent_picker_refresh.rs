//! Root-scoped refresh of the picker's thread list: paging through the server's listing,
//! and folding the listed threads into the known agents.

use vstd::prelude::*;
use crate::agent_monitor::MonitorEntryView;
use crate::agent_monitor::monitor_seeded;
use crate::agent_monitor::opt_text;
use crate::agent_navigation::AgentNavigationState;
use crate::agent_navigation::PickerEntryView;
use crate::agent_navigation::copy_opt;
use crate::agent_navigation::lemma_thread_position;
use crate::agent_navigation::nav_set_path;
use crate::agent_navigation::nav_set_running;
use crate::agent_navigation::nav_upsert;
use crate::agent_navigation::thread_position;
use crate::agent_picker::SelectionViewParams;
use crate::agent_picker::cached_view;
use crate::agent_picker::completed_count;
use crate::agent_picker::repaint_selection;
use crate::app::App;
use crate::app::contains_id;
use crate::protocol::Thread;
use crate::protocol::ThreadStatus;
use crate::thread_id::ThreadId;
use crate::thread_id::hex_value;
use crate::thread_id::uuid_text_digits;

verus! {

/// Threads asked for per page.
pub const AGENT_PICKER_PAGE_SIZE: u32 = 100;

/// Most threads that one refresh collects.
pub const AGENT_PICKER_MAX_THREADS: usize = 1000;

/// One page of the server's thread listing.
#[derive(Debug)]
pub struct ThreadListPage {
    pub data: Vec<Thread>,
    pub next_cursor: Option<String>,
}

/// The order in which a listing returns threads.
#[derive(Clone, Copy, Debug, PartialEq, Eq, Structural)]
pub enum SortDirection {
    Asc,
    Desc,
}

/// How a listed thread came to be.
#[derive(Clone, Copy, Debug, PartialEq, Eq, Structural)]
pub enum ThreadSourceKind {
    /// Spawned as a subagent of another thread.
    SubAgentThreadSpawn,
}

/// The filters of one thread-listing request; every filter not named here is unset.
#[derive(Clone, Debug)]
pub struct ThreadListParams {
    pub cursor: Option<String>,
    pub limit: Option<u32>,
    pub sort_direction: Option<SortDirection>,
    pub model_providers: Option<Vec<String>>,
    pub source_kinds: Option<Vec<ThreadSourceKind>>,
    pub use_state_db_only: bool,
    pub ancestor_thread_id: Option<String>,
}

/// The listing request for one page of the descendants of `root`: newest first, pages of
/// `AGENT_PICKER_PAGE_SIZE`, spawned subagents of any model provider, from the state
/// database, after `cursor`.
pub fn agent_picker_thread_list_params(root: ThreadId, cursor: Option<String>) -> (r: ThreadListParams)
    ensures
        opt_text(r.cursor) == opt_text(cursor),
        r.limit == Some(AGENT_PICKER_PAGE_SIZE),
        r.sort_direction == Some(SortDirection::Desc),
        r.model_providers matches Some(p) && p@.len() == 0,
        r.source_kinds matches Some(k) && k@ == seq![ThreadSourceKind::SubAgentThreadSpawn],
        r.use_state_db_only,
        opt_text(r.ancestor_thread_id) == Some(crate::thread_id::uuid_hyphenated_text(root.uuid)),
{
    let mut kinds = Vec::new();
    kinds.push(ThreadSourceKind::SubAgentThreadSpawn);
    ThreadListParams {
        cursor,
        limit: Some(AGENT_PICKER_PAGE_SIZE),
        sort_direction: Some(SortDirection::Desc),
        model_providers: Some(Vec::new()),
        source_kinds: Some(kinds),
        use_state_db_only: true,
        ancestor_thread_id: Some(root.to_uuid_string()),
    }
}

/// The value of a refresh in progress.
#[verifier::ext_equal]
pub struct RefreshView {
    /// Threads collected so far, newest first as the server lists them.
    pub threads: Seq<Thread>,
    /// The cursor of the next page.
    pub cursor: Option<Seq<char>>,
    /// Cursors already asked for.
    pub seen: Seq<Option<Seq<char>>>,
    pub done: bool,
}

/// The decisions of one picker refresh: which page to ask for next, what to keep of each
/// page, and when to stop. The caller performs the requests.
#[derive(Debug)]
pub struct AgentPickerRefresh {
    threads: Vec<Thread>,
    cursor: Option<String>,
    seen_cursors: Vec<Option<String>>,
    done: bool,
}

/// The values of a run of cursors.
pub open spec fn cursors_view(c: Seq<Option<String>>) -> Seq<Option<Seq<char>>> {
    c.map_values(|x: Option<String>| opt_text(x))
}

/// How many threads of a page fit under the limit.
pub open spec fn page_take(have: int, offered: int) -> int {
    let room = if have >= AGENT_PICKER_MAX_THREADS { 0 } else { AGENT_PICKER_MAX_THREADS - have };
    if offered < room { offered } else { room }
}

/// The refresh is over: after the last page or an error, at the thread limit, or when
/// the next cursor was already asked for.
pub open spec fn refresh_stops(v: RefreshView) -> bool {
    v.done || v.threads.len() >= AGENT_PICKER_MAX_THREADS || v.seen.contains(v.cursor)
}

/// The refresh after asking for the page at its cursor.
pub open spec fn refresh_after_request(v: RefreshView) -> RefreshView {
    RefreshView { seen: v.seen.push(v.cursor), ..v }
}

/// The refresh after a page: the threads that fit are kept, in order, and the page's
/// cursor is next; a page without one ends the refresh.
pub open spec fn refresh_after_page(
    v: RefreshView,
    data: Seq<Thread>,
    next: Option<Seq<char>>,
) -> RefreshView {
    RefreshView {
        threads: v.threads + data.take(page_take(v.threads.len() as int, data.len() as int)),
        cursor: if next is Some { next } else { v.cursor },
        done: if next is Some { v.done } else { true },
        ..v
    }
}

/// The refresh after it ends, by an error or by a stop.
pub open spec fn refresh_after_error(v: RefreshView) -> RefreshView {
    RefreshView { done: true, ..v }
}

/// The refresh before anything was asked for.
pub open spec fn refresh_start() -> RefreshView {
    RefreshView { threads: Seq::empty(), cursor: None, seen: Seq::empty(), done: false }
}

/// How a whole refresh ends.
pub enum RefreshOutcome {
    /// The server has not answered every request yet.
    Pending,
    /// The first request that failed came before any thread was collected.
    Failed,
    /// The threads collected, oldest first.
    Loaded(Seq<Thread>),
}

/// The outcome of a refresh run from `v` when the server answers the successive requests
/// with `answers` (a page's threads and next cursor, or `None` for a failed request).
/// This is what running `next_request`, then `accept_page` or `accept_error`, in turn,
/// and `into_threads` at the end gives.
pub open spec fn refresh_run(
    v: RefreshView,
    answers: Seq<Option<(Seq<Thread>, Option<Seq<char>>)>>,
) -> RefreshOutcome
    decreases answers.len(),
{
    if refresh_stops(v) {
        RefreshOutcome::Loaded(v.threads.reverse())
    } else if answers.len() == 0 {
        RefreshOutcome::Pending
    } else {
        match answers[0] {
            None => if v.threads.len() == 0 {
                RefreshOutcome::Failed
            } else {
                RefreshOutcome::Loaded(v.threads.reverse())
            },
            Some(page) => refresh_run(
                refresh_after_page(refresh_after_request(v), page.0, page.1),
                answers.drop_first(),
            ),
        }
    }
}

/// The threads of the first `k` answers, in order.
pub open spec fn pages_concat(answers: Seq<Option<(Seq<Thread>, Option<Seq<char>>)>>, k: int) -> Seq<Thread>
    decreases k,
{
    if k <= 0 || answers.len() == 0 {
        Seq::empty()
    } else {
        match answers[0] {
            Some(page) => page.0 + pages_concat(answers.drop_first(), k - 1),
            None => pages_concat(answers.drop_first(), k - 1),
        }
    }
}

/// The first `k` answers are all pages.
pub open spec fn all_pages(answers: Seq<Option<(Seq<Thread>, Option<Seq<char>>)>>, k: int) -> bool {
    forall|i: int| 0 <= i < k ==> (#[trigger] answers[i]) is Some
}

/// The first `AGENT_PICKER_MAX_THREADS` threads.
pub open spec fn capped(s: Seq<Thread>) -> Seq<Thread> {
    if s.len() <= AGENT_PICKER_MAX_THREADS {
        s
    } else {
        s.take(AGENT_PICKER_MAX_THREADS as int)
    }
}

impl View for AgentPickerRefresh {
    type V = RefreshView;

    closed spec fn view(&self) -> RefreshView {
        RefreshView {
            threads: self.threads@,
            cursor: opt_text(self.cursor),
            seen: cursors_view(self.seen_cursors@),
            done: self.done,
        }
    }
}

impl AgentPickerRefresh {
    /// A refresh that has asked for nothing yet.
    pub fn new() -> (r: AgentPickerRefresh)
        ensures
            r@ == refresh_start(),
    {
        let r = AgentPickerRefresh {
            threads: Vec::new(),
            cursor: None,
            seen_cursors: Vec::new(),
            done: false,
        };
        assert(cursors_view(r.seen_cursors@) =~= Seq::<Option<Seq<char>>>::empty());
        assert(r@ =~= refresh_start());
        r
    }

    /// The cursor of the next page to ask for, or `None` when the refresh is over: after
    /// the last page, at the thread limit, or when the server repeats a cursor.
    pub fn next_request(&mut self) -> (r: Option<Option<String>>)
        ensures
            refresh_stops(old(self)@) ==> r is None && final(self)@ == refresh_after_error(old(self)@),
            !refresh_stops(old(self)@) ==> r is Some && opt_text(r->0) == old(self)@.cursor
                && final(self)@ == refresh_after_request(old(self)@),
    {
        let ghost o = self@;
        if self.done || self.threads.len() >= AGENT_PICKER_MAX_THREADS || self.seen_cursor() {
            self.done = true;
            assert(self@ =~= RefreshView { done: true, ..o });
            return None;
        }
        let c = copy_opt(&self.cursor);
        self.seen_cursors.push(c);
        assert(cursors_view(self.seen_cursors@) =~= o.seen.push(o.cursor));
        Some(copy_opt(&self.cursor))
    }

    fn seen_cursor(&self) -> (r: bool)
        ensures
            r == self@.seen.contains(self@.cursor),
    {
        let ghost seen = self@.seen;
        let mut i: usize = 0;
        while i < self.seen_cursors.len()
            invariant
                i <= self.seen_cursors@.len(),
                seen == cursors_view(self.seen_cursors@),
                seen.len() == self.seen_cursors@.len(),
                forall|j: int| 0 <= j < i ==> seen[j] != opt_text(self.cursor),
            decreases self.seen_cursors@.len() - i,
        {
            let same = match &self.seen_cursors[i] {
                Some(a) => match &self.cursor {
                    Some(b) => <String as PartialEq>::eq(a, b),
                    None => false,
                },
                None => self.cursor.is_none(),
            };
            assert(seen[i as int] == opt_text(self.seen_cursors@[i as int]));
            if same {
                assert(seen[i as int] == opt_text(self.cursor));
                return true;
            }
            i = i + 1;
        }
        false
    }

    /// Keeps the threads of a page that fit under the limit, in order, and moves to the
    /// next cursor; a page without one ends the refresh.
    pub fn accept_page(&mut self, page: ThreadListPage)
        ensures
            final(self)@ == refresh_after_page(old(self)@, page.data@, opt_text(page.next_cursor)),
    {
        let ghost o = self@;
        let ThreadListPage { data, next_cursor } = page;
        let mut data = data;
        let room = if self.threads.len() >= AGENT_PICKER_MAX_THREADS {
            0
        } else {
            AGENT_PICKER_MAX_THREADS - self.threads.len()
        };
        if data.len() > room {
            data.truncate(room);
        }
        let ghost kept = data@;
        self.threads.append(&mut data);
        assert(self.threads@ == o.threads + kept);
        let ghost next = opt_text(next_cursor);
        match next_cursor {
            Some(c) => {
                self.cursor = Some(c);
            },
            None => {
                self.done = true;
            },
        }
        assert(self@ =~= refresh_after_page(o, page.data@, next));
    }

    /// Ends the refresh after a failed request; reports whether the whole refresh fails,
    /// which is when no thread was collected yet.
    pub fn accept_error(&mut self) -> (fails: bool)
        ensures
            fails == (old(self)@.threads.len() == 0),
            final(self)@ == refresh_after_error(old(self)@),
    {
        self.done = true;
        self.threads.len() == 0
    }

    /// The collected threads, oldest first.
    pub fn into_threads(self) -> (r: Vec<Thread>)
        ensures
            r@ == self@.threads.reverse(),
    {
        let ghost all = self@.threads;
        let mut threads = self.threads;
        let mut out: Vec<Thread> = Vec::new();
        while threads.len() > 0
            invariant
                all.reverse() == out@ + threads@.reverse(),
            decreases threads@.len(),
        {
            let ghost before = threads@;
            match threads.pop() {
                Some(t) => {
                    let ghost prev = out@;
                    out.push(t);
                    assert(before.reverse() =~= seq![t] + threads@.reverse());
                    assert(out@ + threads@.reverse() =~= prev + before.reverse());
                },
                None => {},
            }
        }
        assert(threads@.reverse() =~= Seq::<Thread>::empty());
        assert(out@ =~= out@ + threads@.reverse());
        out
    }
}

/// The navigation state that a listing updates.
#[verifier::ext_equal]
pub struct NavStateView {
    pub threads: Seq<(ThreadId, PickerEntryView)>,
    pub monitor: Map<u128, MonitorEntryView>,
    pub parent_owned: Seq<ThreadId>,
    pub picker_subtitle: Seq<char>,
}

/// The value of a navigation state.
pub open spec fn nav_state(nav: &AgentNavigationState) -> NavStateView {
    NavStateView {
        threads: nav@,
        monitor: nav.monitor@,
        parent_owned: nav.parent_owned@,
        picker_subtitle: nav.picker_subtitle@,
    }
}

/// The thread id that a listed id text names.
pub open spec fn parsed_thread_id(s: Seq<char>) -> Option<ThreadId> {
    match uuid_text_digits(s) {
        Some(d) => Some(ThreadId { uuid: hex_value(d) as u128 }),
        None => None,
    }
}

/// The navigation state after one listed thread: it seeds the monitor, and unless a
/// closed agent would come back to life, it updates the agent's names, closed flag and
/// path, and its running flag when no live channel reports it.
pub open spec fn listed_thread_applied(s: NavStateView, t: Thread, live: Seq<ThreadId>) -> NavStateView {
    match parsed_thread_id(t.id@) {
        None => s,
        Some(id) => {
            let monitor = monitor_seeded(s.monitor, id, t);
            let is_live = live.contains(id);
            let previous = match thread_position(s.threads, id) {
                Some(k) => Some(s.threads[k].1),
                None => None,
            };
            let is_running = t.status is Active;
            let update_liveness = previous is None || !is_running;
            let is_closed = !is_live && t.status is NotLoaded;
            if !is_closed && previous is Some && previous->0.is_closed {
                NavStateView { monitor, ..s }
            } else {
                let nickname = match opt_text(t.agent_nickname) {
                    Some(n) => Some(n),
                    None => match previous {
                        Some(p) => p.agent_nickname,
                        None => None,
                    },
                };
                let role = match opt_text(t.agent_role) {
                    Some(r) => Some(r),
                    None => match previous {
                        Some(p) => p.agent_role,
                        None => None,
                    },
                };
                let parent_owned = if t.can_accept_direct_input == Some(false)
                    && !s.parent_owned.contains(id) {
                    s.parent_owned.push(id)
                } else {
                    s.parent_owned
                };
                let t1 = nav_upsert(s.threads, id, nickname, role, is_closed);
                let t2 = nav_set_path(t1, id, opt_text(t.agent_path));
                let t3 = if !is_live && update_liveness {
                    nav_set_running(t2, id, is_running)
                } else {
                    t2
                };
                NavStateView { threads: t3, monitor, parent_owned, ..s }
            }
        },
    }
}

/// The navigation state after a listing, thread by thread in order.
pub open spec fn listed_threads_applied(
    s: NavStateView,
    ts: Seq<Thread>,
    live: Seq<ThreadId>,
) -> NavStateView
    decreases ts.len(),
{
    if ts.len() == 0 {
        s
    } else {
        listed_thread_applied(listed_threads_applied(s, ts.drop_last(), live), ts.last(), live)
    }
}

impl App {
    /// Folds one listed thread into the known agents.
    fn apply_listed_thread(&mut self, thread: &Thread, live_threads: &Vec<ThreadId>)
        ensures
            nav_state(&final(self).agent_navigation) == listed_thread_applied(
                nav_state(&old(self).agent_navigation),
                *thread,
                live_threads@,
            ),
            final(self).agent_navigation.show_completed == old(self).agent_navigation.show_completed,
            final(self).agent_navigation.pending_picker_refresh == old(self).agent_navigation.pending_picker_refresh,
            final(self).primary_thread_id == old(self).primary_thread_id,
            final(self).active_thread_id == old(self).active_thread_id,
            final(self).side_threads@ == old(self).side_threads@,
            final(self).bottom_pane == old(self).bottom_pane,
    {
        let ghost s = nav_state(&self.agent_navigation);
        let thread_id = match ThreadId::from_string(thread.id.as_str()) {
            Ok(id) => id,
            Err(_) => return,
        };
        assert(parsed_thread_id(thread.id@) == Some(thread_id));
        self.agent_navigation.monitor.seed(thread_id, thread);
        let live = contains_id(live_threads, thread_id);
        let previous = self.agent_navigation.get(thread_id);
        proof {
            lemma_thread_position(s.threads, thread_id);
        }
        let is_running = match &thread.status {
            ThreadStatus::Active { .. } => true,
            _ => false,
        };
        let update_liveness = previous.is_none() || !is_running;
        let not_loaded = match &thread.status {
            ThreadStatus::NotLoaded => true,
            _ => false,
        };
        let is_closed = !live && not_loaded;
        let previous_closed = match &previous {
            Some(entry) => entry.is_closed,
            None => false,
        };
        if !is_closed && previous_closed {
            return;
        }
        let agent_nickname = match &thread.agent_nickname {
            Some(n) => Some(n.clone()),
            None => match &previous {
                Some(entry) => copy_opt(&entry.agent_nickname),
                None => None,
            },
        };
        let agent_role = match &thread.agent_role {
            Some(r) => Some(r.clone()),
            None => match &previous {
                Some(entry) => copy_opt(&entry.agent_role),
                None => None,
            },
        };
        if thread.can_accept_direct_input == Some(false) {
            self.agent_navigation.mark_parent_owned(thread_id);
        }
        self.agent_navigation.upsert(thread_id, agent_nickname, agent_role, is_closed);
        self.agent_navigation.set_agent_path(thread_id, copy_opt(&thread.agent_path));
        if !live && update_liveness {
            self.agent_navigation.set_running(thread_id, is_running);
        }
        assert(nav_state(&self.agent_navigation) =~= listed_thread_applied(s, *thread, live_threads@));
    }

    /// Applies a finished picker refresh for `root`: it ends the refresh, and when that was
    /// the refresh in flight and `root` is still the primary thread, the listed threads
    /// (oldest first) are folded into the known agents, and the picker, when open at row
    /// `view_index`, gets new content that keeps the cursor on the thread it was on.
    pub fn apply_agent_picker_thread_refresh(
        &mut self,
        root: ThreadId,
        request_id: u128,
        result: Result<Vec<Thread>, String>,
        live_threads: &Vec<ThreadId>,
        view_index: Option<usize>,
        cached_models: &Vec<(ThreadId, String)>,
    ) -> (r: Option<SelectionViewParams>)
        ensures
            final(self).primary_thread_id == old(self).primary_thread_id,
            final(self).active_thread_id == old(self).active_thread_id,
            final(self).side_threads@ == old(self).side_threads@,
            final(self).bottom_pane == old(self).bottom_pane,
            final(self).agent_navigation.show_completed == old(self).agent_navigation.show_completed,
            final(self).agent_navigation.pending_picker_refresh == if old(self).agent_navigation.pending_picker_refresh
                == Some((root, request_id)) {
                None
            } else {
                old(self).agent_navigation.pending_picker_refresh
            },
            (old(self).agent_navigation.pending_picker_refresh != Some((root, request_id))
                || old(self).primary_thread_id != Some(root) || result is Err) ==> {
                &&& r is None
                &&& nav_state(&final(self).agent_navigation) == nav_state(&old(self).agent_navigation)
            },
            (old(self).agent_navigation.pending_picker_refresh == Some((root, request_id))
                && old(self).primary_thread_id == Some(root) && result is Ok) ==> {
                let selected = match view_index {
                    Some(i) => if i < old(self).picker_threads_now().len() {
                        Some(old(self).picker_threads_now()[i as int].0)
                    } else {
                        None::<ThreadId>
                    },
                    None => None::<ThreadId>,
                };
                &&& nav_state(&final(self).agent_navigation) == listed_threads_applied(
                    nav_state(&old(self).agent_navigation),
                    result->Ok_0@,
                    live_threads@,
                )
                &&& (r is None <==> view_index is None)
                &&& r matches Some(p) ==> final(self).picker_params_hold(
                    p,
                    repaint_selection(
                        view_index->0,
                        selected,
                        final(self).picker_threads_now(),
                        completed_count(
                            final(self).agent_navigation@,
                            final(self).primary_thread_id,
                            final(self).agent_navigation.monitor@,
                        ),
                    ),
                    cached_view(cached_models@),
                )
            },
    {
        let refresh_current = self.agent_navigation.finish_picker_refresh(root, request_id);
        if !refresh_current || self.primary_thread_id != Some(root) {
            return None;
        }
        let threads = match result {
            Ok(threads) => threads,
            Err(_) => return None,
        };
        let selected = self.agent_picker_selected_thread(view_index);
        let ghost s0 = nav_state(&self.agent_navigation);
        let mut i: usize = 0;
        while i < threads.len()
            invariant
                i <= threads@.len(),
                nav_state(&self.agent_navigation) == listed_threads_applied(
                    s0,
                    threads@.take(i as int),
                    live_threads@,
                ),
                self.primary_thread_id == old(self).primary_thread_id,
                self.active_thread_id == old(self).active_thread_id,
                self.side_threads@ == old(self).side_threads@,
                self.bottom_pane == old(self).bottom_pane,
                self.agent_navigation.show_completed == old(self).agent_navigation.show_completed,
                self.agent_navigation.pending_picker_refresh == None::<(ThreadId, u128)>,
            decreases threads@.len() - i,
        {
            assert(threads@.take(i + 1).drop_last() =~= threads@.take(i as int));
            assert(threads@.take(i + 1).last() == threads@[i as int]);
            self.apply_listed_thread(&threads[i], live_threads);
            i = i + 1;
        }
        assert(threads@.take(i as int) =~= threads@);
        self.repaint_agent_picker(view_index, selected, cached_models)
    }
}

proof fn lemma_first_position(t: Seq<(ThreadId, PickerEntryView)>, id: ThreadId, k: int)
    requires
        0 <= k < t.len(),
        t[k].0 == id,
        forall|j: int| 0 <= j < k ==> t[j].0 != id,
    ensures
        thread_position(t, id) == Some(k),
{
    lemma_thread_position(t, id);
    if let Some(f) = thread_position(t, id) {
        if f < k {
            assert(t[f].0 == id);
        }
    }
}

/// A listed thread's names, path and closed flag are the listing's: unless the listing
/// would bring a closed agent back, the thread's known entry afterwards has the role and
/// the nickname that the listing reports (the previously known ones only where the
/// listing has none), the listed path, and is closed exactly when the listing shows it
/// not loaded and no live channel reports it.
pub proof fn lemma_listing_sets_names(
    s: NavStateView,
    t: Thread,
    live: Seq<ThreadId>,
    id: ThreadId,
)
    requires
        parsed_thread_id(t.id@) == Some(id),
        ({
            let is_closed = !live.contains(id) && t.status is NotLoaded;
            is_closed || !(thread_position(s.threads, id) matches Some(k)
                && s.threads[k].1.is_closed)
        }),
    ensures
        ({
            let r = listed_thread_applied(s, t, live);
            let previous = match thread_position(s.threads, id) {
                Some(k) => Some(s.threads[k].1),
                None => None,
            };
            thread_position(r.threads, id) matches Some(k) && {
                let e = r.threads[k].1;
                &&& t.agent_role matches Some(x) ==> e.agent_role == Some(x@)
                &&& t.agent_role is None ==> e.agent_role == match previous {
                    Some(p) => p.agent_role,
                    None => None,
                }
                &&& t.agent_nickname matches Some(x) ==> e.agent_nickname == Some(x@)
                &&& t.agent_nickname is None ==> e.agent_nickname == match previous {
                    Some(p) => p.agent_nickname,
                    None => None,
                }
                &&& e.agent_path == opt_text(t.agent_path)
                &&& e.is_closed == (!live.contains(id) && t.status is NotLoaded)
            }
        }),
{
    let th = s.threads;
    lemma_thread_position(th, id);
    let k = match thread_position(th, id) {
        Some(k) => k,
        None => th.len() as int,
    };
    let r = listed_thread_applied(s, t, live);
    let is_live = live.contains(id);
    let is_running = t.status is Active;
    let previous = match thread_position(th, id) {
        Some(k) => Some(th[k].1),
        None => None,
    };
    let update_liveness = previous is None || !is_running;
    let is_closed = !is_live && t.status is NotLoaded;
    let nickname = match opt_text(t.agent_nickname) {
        Some(n) => Some(n),
        None => match previous {
            Some(p) => p.agent_nickname,
            None => None,
        },
    };
    let role = match opt_text(t.agent_role) {
        Some(x) => Some(x),
        None => match previous {
            Some(p) => p.agent_role,
            None => None,
        },
    };
    let t1 = nav_upsert(th, id, nickname, role, is_closed);
    assert(t1.len() > k && t1[k].0 == id);
    assert(forall|j: int| 0 <= j < k ==> t1[j] == th[j]);
    lemma_first_position(t1, id, k);
    let t2 = nav_set_path(t1, id, opt_text(t.agent_path));
    assert(forall|j: int| 0 <= j < k ==> t2[j] == th[j]);
    lemma_first_position(t2, id, k);
    let t3 = if !is_live && update_liveness {
        nav_set_running(t2, id, is_running)
    } else {
        t2
    };
    assert(forall|j: int| 0 <= j < k ==> t3[j] == th[j]);
    lemma_first_position(t3, id, k);
    assert(r.threads == t3);
}

/// A refresh never collects more than `AGENT_PICKER_MAX_THREADS` threads: each page adds
/// at most what fits under the limit.
pub proof fn lemma_refresh_keeps_limit(have: int, offered: int)
    requires
        0 <= have,
        0 <= offered,
    ensures
        0 <= page_take(have, offered) <= offered,
        have <= AGENT_PICKER_MAX_THREADS ==> have + page_take(have, offered)
            <= AGENT_PICKER_MAX_THREADS,
{
}

proof fn lemma_capped_page(a: Seq<Thread>, data: Seq<Thread>)
    requires
        a.len() <= AGENT_PICKER_MAX_THREADS,
    ensures
        a + data.take(page_take(a.len() as int, data.len() as int)) == capped(a + data),
{
    let k = page_take(a.len() as int, data.len() as int);
    if (a + data).len() <= AGENT_PICKER_MAX_THREADS {
        assert(data.take(k) =~= data);
    } else {
        assert(a + data.take(k) =~= (a + data).take(AGENT_PICKER_MAX_THREADS as int));
    }
}

proof fn lemma_capped_twice(a: Seq<Thread>, c: Seq<Thread>)
    ensures
        capped(capped(a) + c) == capped(a + c),
{
    if a.len() > AGENT_PICKER_MAX_THREADS {
        assert(capped(a) + c =~= (a + c).take(AGENT_PICKER_MAX_THREADS as int) + c);
        assert((capped(a) + c).take(AGENT_PICKER_MAX_THREADS as int) =~= (a + c).take(
            AGENT_PICKER_MAX_THREADS as int,
        ));
    }
}

proof fn lemma_refresh_run_from(v: RefreshView, answers: Seq<Option<(Seq<Thread>, Option<Seq<char>>)>>)
    requires
        v.threads.len() <= AGENT_PICKER_MAX_THREADS,
    ensures
        refresh_run(v, answers) matches RefreshOutcome::Loaded(ts) ==> exists|k: int|
            0 <= k <= answers.len() && all_pages(answers, k) && ts == capped(
                v.threads + pages_concat(answers, k),
            ).reverse(),
        refresh_run(v, answers) is Failed ==> exists|k: int|
            0 <= k < answers.len() && all_pages(answers, k) && answers[k] is None && (v.threads
                + pages_concat(answers, k)).len() == 0,
    decreases answers.len(),
{
    assert(pages_concat(answers, 0) == Seq::<Thread>::empty());
    assert(v.threads + pages_concat(answers, 0) =~= v.threads);
    assert(capped(v.threads) == v.threads);
    assert(all_pages(answers, 0));
    if refresh_stops(v) || answers.len() == 0 {
        if refresh_stops(v) {
            assert(refresh_run(v, answers) == RefreshOutcome::Loaded(
                capped(v.threads + pages_concat(answers, 0)).reverse(),
            ));
        }
    } else {
        match answers[0] {
            None => {
                if v.threads.len() == 0 {
                    assert(0 < answers.len() && all_pages(answers, 0) && answers[0] is None && (
                    v.threads + pages_concat(answers, 0)).len() == 0);
                } else {
                    assert(refresh_run(v, answers) == RefreshOutcome::Loaded(
                        capped(v.threads + pages_concat(answers, 0)).reverse(),
                    ));
                }
            },
            Some(page) => {
                let rest = answers.drop_first();
                let w = refresh_after_page(refresh_after_request(v), page.0, page.1);
                lemma_capped_page(v.threads, page.0);
                lemma_refresh_run_from(w, rest);
                match refresh_run(w, rest) {
                    RefreshOutcome::Loaded(ts) => {
                        let k = choose|k: int|
                            0 <= k <= rest.len() && all_pages(rest, k) && ts == capped(
                                w.threads + pages_concat(rest, k),
                            ).reverse();
                        assert(pages_concat(answers, k + 1) == page.0 + pages_concat(rest, k));
                        lemma_capped_twice(v.threads + page.0, pages_concat(rest, k));
                        assert(v.threads + page.0 + pages_concat(rest, k) =~= v.threads
                            + pages_concat(answers, k + 1));
                        assert forall|i: int| 0 <= i < k + 1 implies (#[trigger] answers[i]) is Some by {
                            if i > 0 {
                                assert(answers[i] == rest[i - 1]);
                            }
                        }
                        assert(0 <= k + 1 <= answers.len() && all_pages(answers, k + 1) && ts
                            == capped(v.threads + pages_concat(answers, k + 1)).reverse());
                    },
                    RefreshOutcome::Failed => {
                        let k = choose|k: int|
                            0 <= k < rest.len() && all_pages(rest, k) && rest[k] is None && (w.threads
                                + pages_concat(rest, k)).len() == 0;
                        assert(pages_concat(answers, k + 1) == page.0 + pages_concat(rest, k));
                        assert(answers[k + 1] == rest[k]);
                        if (v.threads + page.0).len() > 0 {
                            assert(capped(v.threads + page.0).len() > 0);
                        }
                        assert forall|i: int| 0 <= i < k + 1 implies (#[trigger] answers[i]) is Some by {
                            if i > 0 {
                                assert(answers[i] == rest[i - 1]);
                            }
                        }
                        assert(v.threads + page.0 + pages_concat(rest, k) =~= v.threads
                            + pages_concat(answers, k + 1));
                        assert(0 <= k + 1 < answers.len() && all_pages(answers, k + 1) && answers[k
                            + 1] is None && (v.threads + pages_concat(answers, k + 1)).len() == 0);
                    },
                    RefreshOutcome::Pending => {},
                }
            },
        }
    }
}

/// A whole refresh: it ends in one result. It fails only when a request fails before
/// any thread was collected; otherwise it gives the threads of the pages received before
/// paging stopped, concatenated, cut to the first `AGENT_PICKER_MAX_THREADS`, oldest
/// first.
pub proof fn lemma_refresh_run(answers: Seq<Option<(Seq<Thread>, Option<Seq<char>>)>>)
    ensures
        refresh_run(refresh_start(), answers) matches RefreshOutcome::Loaded(ts) ==> {
            &&& ts.len() <= AGENT_PICKER_MAX_THREADS
            &&& exists|k: int|
                0 <= k <= answers.len() && all_pages(answers, k) && ts == capped(
                    pages_concat(answers, k),
                ).reverse()
        },
        refresh_run(refresh_start(), answers) is Failed ==> exists|k: int|
            0 <= k < answers.len() && all_pages(answers, k) && answers[k] is None
                && pages_concat(answers, k).len() == 0,
{
    let v = refresh_start();
    lemma_refresh_run_from(v, answers);
    match refresh_run(v, answers) {
        RefreshOutcome::Loaded(ts) => {
            let k = choose|k: int|
                0 <= k <= answers.len() && all_pages(answers, k) && ts == capped(
                    v.threads + pages_concat(answers, k),
                ).reverse();
            assert(v.threads + pages_concat(answers, k) =~= pages_concat(answers, k));
        },
        RefreshOutcome::Failed => {
            let k = choose|k: int|
                0 <= k < answers.len() && all_pages(answers, k) && answers[k] is None && (v.threads
                    + pages_concat(answers, k)).len() == 0;
            assert(v.threads + pages_concat(answers, k) =~= pages_concat(answers, k));
        },
        RefreshOutcome::Pending => {},
    }
}

/// Every request of a refresh asks for a cursor not asked for before, so a server that
/// hands out finitely many distinct cursors gets finitely many requests: at most as many
/// as there are distinct cursors.
pub proof fn lemma_requests_are_distinct(v: RefreshView, cursors: Set<Option<Seq<char>>>)
    requires
        v.seen.no_duplicates(),
    ensures
        !refresh_stops(v) ==> refresh_after_request(v).seen.no_duplicates(),
        cursors.finite() && (forall|i: int| 0 <= i < v.seen.len() ==> cursors.contains(
            #[trigger] v.seen[i],
        )) ==> v.seen.len() <= cursors.len(),
{
    if !refresh_stops(v) {
        let s = refresh_after_request(v).seen;
        assert forall|i: int, j: int| 0 <= i < s.len() && 0 <= j < s.len() && i != j implies s[i]
            != s[j] by {
            if i == v.seen.len() as int {
                assert(v.seen.contains(v.seen[j]));
            } else if j == v.seen.len() as int {
                assert(v.seen.contains(v.seen[i]));
            }
        }
    }
    if cursors.finite() && (forall|i: int| 0 <= i < v.seen.len() ==> cursors.contains(
        #[trigger] v.seen[i],
    )) {
        v.seen.unique_seq_to_set();
        assert(v.seen.to_set().subset_of(cursors)) by {
            assert forall|x| v.seen.to_set().contains(x) implies cursors.contains(x) by {
                let i = choose|i: int| 0 <= i < v.seen.len() && v.seen[i] == x;
            }
        }
        vstd::set_lib::lemma_len_subset(v.seen.to_set(), cursors);
    }
}

} // verus!
