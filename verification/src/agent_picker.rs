//! The rows of the `/subagents` picker and the root-scoped refresh of its thread list.

use vstd::prelude::*;
use vstd::string::StringExecFns;
use crate::agent_monitor::MonitorEntryView;
use crate::agent_monitor::completed_successfully;
use crate::agent_navigation::AgentPickerThreadEntry;
use crate::agent_navigation::PickerEntryView;
use crate::agent_navigation::copy_picker_entry;
use crate::agent_navigation::lemma_threads_view;
use crate::agent_navigation::threads_view;
use crate::agent_monitor::description_of;
use crate::agent_monitor::status_label_text;
use crate::agent_navigation::format_agent_picker_item_name;
use crate::agent_navigation::item_name_text;
use crate::agent_navigation::thread_position;
use crate::agent_navigation::lemma_thread_position;
use crate::app::App;
use crate::app::append_activity;
use crate::app::status_field;
use crate::app::tokens_field;
use crate::app::tokens_text;
use crate::app::with_activity;
use crate::app_event::AppEvent;
use crate::text::chars_of;
use crate::text::decimal_text;
use crate::text::string_from_range;
use crate::text::trim_bounds;
use crate::text::trimmed;
use crate::text::u64_to_decimal;
use crate::thread_id::ThreadId;
use crate::thread_id::uuid_hyphenated_text;

verus! {

/// The view id of the agent picker.
pub const AGENT_PICKER_VIEW_ID: &'static str = "agent-picker";

/// The monitor knows that the thread's latest turn completed successfully.
pub open spec fn thread_completed(monitor: Map<u128, MonitorEntryView>, id: ThreadId) -> bool {
    monitor.contains_key(id.uuid) && completed_successfully(monitor[id.uuid])
}

/// The picker group of a thread: the primary thread first, then agents that have not
/// completed, then completed ones.
pub open spec fn picker_group(
    primary: Option<ThreadId>,
    monitor: Map<u128, MonitorEntryView>,
    id: ThreadId,
) -> int {
    if primary == Some(id) {
        0
    } else if thread_completed(monitor, id) {
        2
    } else {
        1
    }
}

/// The picker lists a thread: the primary thread always, completed agents only while
/// they are shown.
pub open spec fn picker_lists(
    primary: Option<ThreadId>,
    show_completed: bool,
    monitor: Map<u128, MonitorEntryView>,
    id: ThreadId,
) -> bool {
    primary == Some(id) || show_completed || !thread_completed(monitor, id)
}

/// The listed threads of one group, in spawn order.
pub open spec fn picker_group_threads(
    t: Seq<(ThreadId, PickerEntryView)>,
    group: int,
    primary: Option<ThreadId>,
    show_completed: bool,
    monitor: Map<u128, MonitorEntryView>,
) -> Seq<(ThreadId, PickerEntryView)>
    decreases t.len(),
{
    if t.len() == 0 {
        Seq::empty()
    } else {
        let before = picker_group_threads(t.drop_last(), group, primary, show_completed, monitor);
        let last = t.last();
        if picker_lists(primary, show_completed, monitor, last.0) && picker_group(
            primary,
            monitor,
            last.0,
        ) == group {
            before.push(last)
        } else {
            before
        }
    }
}

/// The picker's threads: the listed ones, grouped, each group in spawn order.
pub open spec fn picker_threads(
    t: Seq<(ThreadId, PickerEntryView)>,
    primary: Option<ThreadId>,
    show_completed: bool,
    monitor: Map<u128, MonitorEntryView>,
) -> Seq<(ThreadId, PickerEntryView)> {
    picker_group_threads(t, 0, primary, show_completed, monitor) + picker_group_threads(
        t,
        1,
        primary,
        show_completed,
        monitor,
    ) + picker_group_threads(t, 2, primary, show_completed, monitor)
}

/// The number of known agents, other than the primary thread, whose latest turn completed.
pub open spec fn completed_count(
    t: Seq<(ThreadId, PickerEntryView)>,
    primary: Option<ThreadId>,
    monitor: Map<u128, MonitorEntryView>,
) -> nat
    decreases t.len(),
{
    if t.len() == 0 {
        0
    } else {
        completed_count(t.drop_last(), primary, monitor) + if primary != Some(t.last().0)
            && thread_completed(monitor, t.last().0) {
            1nat
        } else {
            0nat
        }
    }
}

/// The completed-agents count is the number of known threads, other than the primary
/// thread, whose latest turn completed successfully: whatever state the primary thread is
/// in, it never counts, and the count is zero exactly when no other thread completed.
pub proof fn lemma_completed_count_skips_primary(
    t: Seq<(ThreadId, PickerEntryView)>,
    primary: Option<ThreadId>,
    monitor: Map<u128, MonitorEntryView>,
)
    ensures
        completed_count(t, primary, monitor) == t.filter(
            |x: (ThreadId, PickerEntryView)| primary != Some(x.0) && thread_completed(monitor, x.0),
        ).len(),
        completed_count(t, primary, monitor) == 0 <==> forall|i: int|
            0 <= i < t.len() ==> primary == Some(#[trigger] t[i].0) || !thread_completed(monitor, t[i].0),
    decreases t.len(),
{
    let f = |x: (ThreadId, PickerEntryView)| primary != Some(x.0) && thread_completed(monitor, x.0);
    reveal(Seq::filter);
    if t.len() > 0 {
        let rest = t.drop_last();
        lemma_completed_count_skips_primary(rest, primary, monitor);
        assert(t.filter(f) == if f(t.last()) {
            rest.filter(f).push(t.last())
        } else {
            rest.filter(f)
        });
        assert forall|i: int| 0 <= i < rest.len() implies #[trigger] rest[i] == t[i] by {}
        if completed_count(t, primary, monitor) == 0 {
            assert forall|i: int| 0 <= i < t.len() implies primary == Some(#[trigger] t[i].0)
                || !thread_completed(monitor, t[i].0) by {
                if i < rest.len() {
                    assert(rest[i] == t[i]);
                } else {
                    assert(t[i] == t.last());
                }
            }
        } else if !f(t.last()) {
            let i = choose|i: int|
                0 <= i < rest.len() && !(primary == Some(#[trigger] rest[i].0) || !thread_completed(
                    monitor,
                    rest[i].0,
                ));
            assert(rest[i] == t[i]);
        } else {
            assert(t[t.len() - 1] == t.last());
        }
    }
}

/// One row of a selection view.
#[derive(Clone, Debug)]
pub struct SelectionItem {
    pub name: String,
    pub description: Option<String>,
    pub is_current: bool,
    /// The event sent when the row is chosen.
    pub action: AppEvent,
    pub dismiss_on_select: bool,
    pub search_value: Option<String>,
}

/// The value of a selection row.
#[verifier::ext_equal]
pub struct SelectionItemView {
    pub name: Seq<char>,
    pub description: Option<Seq<char>>,
    pub is_current: bool,
    pub action: AppEvent,
    pub dismiss_on_select: bool,
    pub search_value: Option<Seq<char>>,
}

impl View for SelectionItem {
    type V = SelectionItemView;

    open spec fn view(&self) -> SelectionItemView {
        SelectionItemView {
            name: self.name@,
            description: crate::agent_monitor::opt_text(self.description),
            is_current: self.is_current,
            action: self.action,
            dismiss_on_select: self.dismiss_on_select,
            search_value: crate::agent_monitor::opt_text(self.search_value),
        }
    }
}

/// The key hint line under a popup.
#[derive(Clone, Copy, Debug, PartialEq, Eq, Structural)]
pub enum FooterHint {
    /// The standard hint line of popups.
    StandardPopupHint,
}

/// The content of the picker popup.
#[derive(Clone, Debug)]
pub struct SelectionViewParams {
    pub view_id: &'static str,
    pub title: String,
    pub subtitle: String,
    pub footer_hint: FooterHint,
    pub footer_note: String,
    /// Descriptions go below names when fewer columns than this are left for them.
    pub min_description_width: u16,
    pub items: Vec<SelectionItem>,
    pub initial_selected_idx: Option<usize>,
}

/// The values of the rows of a selection view.
pub open spec fn items_view(items: Seq<SelectionItem>) -> Seq<SelectionItemView> {
    items.map_values(|i: SelectionItem| i@)
}

/// The model that a cached session reports for a thread, from the first listing of it.
pub open spec fn cached_model_of(cached: Seq<(ThreadId, Seq<char>)>, id: ThreadId) -> Option<Seq<char>>
    decreases cached.len(),
{
    if cached.len() == 0 {
        None
    } else if cached[0].0 == id {
        Some(cached[0].1)
    } else {
        cached_model_of(cached.drop_first(), id)
    }
}

/// The values of cached session models.
pub open spec fn cached_view(cached: Seq<(ThreadId, String)>) -> Seq<(ThreadId, Seq<char>)> {
    cached.map_values(|p: (ThreadId, String)| (p.0, p.1@))
}

/// The picker name of a thread: its agent path unless it is the primary thread or the
/// path is blank, otherwise the name from nickname and role.
pub open spec fn picker_item_name(primary: Option<ThreadId>, id: ThreadId, e: PickerEntryView) -> Seq<char> {
    let is_primary = primary == Some(id);
    match e.agent_path {
        Some(p) => if !is_primary && trimmed(p).len() > 0 {
            trimmed(p)
        } else {
            item_name_text(e.agent_nickname, e.agent_role, is_primary)
        },
        None => item_name_text(e.agent_nickname, e.agent_role, is_primary),
    }
}

/// The model shown in the picker: the monitor's, else a non-empty cached one, else a
/// note that it is not known.
pub open spec fn picker_model_text(monitor_model: Option<Seq<char>>, cached: Option<Seq<char>>) -> Seq<char> {
    match monitor_model {
        Some(m) => m,
        None => match cached {
            Some(c) => if c.len() > 0 {
                c
            } else {
                "model unknown"@
            },
            None => "model unknown"@,
        },
    }
}

/// The picker row of one thread.
pub open spec fn picker_item(
    app_primary: Option<ThreadId>,
    app_active: Option<ThreadId>,
    monitor: Map<u128, MonitorEntryView>,
    cached: Seq<(ThreadId, Seq<char>)>,
    id: ThreadId,
    e: PickerEntryView,
) -> SelectionItemView {
    let d = description_of(monitor, id, e.is_running, e.is_closed);
    let name = picker_item_name(app_primary, id, e);
    SelectionItemView {
        name,
        description: Some(
            with_activity(
                status_label_text(d.status) + " · "@ + picker_model_text(
                    d.model,
                    cached_model_of(cached, id),
                ) + " · "@ + tokens_text(d.total_tokens),
                d.activity,
            ),
        ),
        is_current: app_active == Some(id),
        action: AppEvent::SelectAgentThread(id),
        dismiss_on_select: true,
        search_value: Some(name + " "@ + uuid_hyphenated_text(id.uuid)),
    }
}

/// The completed-agents toggle row.
pub open spec fn toggle_item(show_completed: bool, count: nat) -> SelectionItemView {
    SelectionItemView {
        name: (if show_completed { "Hide"@ } else { "Show"@ }) + " completed ("@ + decimal_text(count)
            + ")"@,
        description: None,
        is_current: false,
        action: AppEvent::ToggleCompletedAgents,
        dismiss_on_select: false,
        search_value: None,
    }
}

/// The rows of the picker: one per listed thread, then the toggle when some agent has
/// completed.
pub open spec fn picker_items(
    vis: Seq<(ThreadId, PickerEntryView)>,
    primary: Option<ThreadId>,
    active: Option<ThreadId>,
    show_completed: bool,
    monitor: Map<u128, MonitorEntryView>,
    cached: Seq<(ThreadId, Seq<char>)>,
    completed: nat,
) -> Seq<SelectionItemView> {
    let rows = Seq::new(
        vis.len(),
        |k: int| picker_item(primary, active, monitor, cached, vis[k].0, vis[k].1),
    );
    if completed > 0 {
        rows.push(toggle_item(show_completed, completed))
    } else {
        rows
    }
}

/// The row the cursor starts on: the requested one, else the shown thread's.
pub open spec fn initial_index(
    selected: Option<usize>,
    vis: Seq<(ThreadId, PickerEntryView)>,
    active: Option<ThreadId>,
) -> Option<int> {
    match selected {
        Some(i) => Some(i as int),
        None => match active {
            Some(a) => thread_position(vis, a),
            None => None,
        },
    }
}

proof fn lemma_thread_position_push(
    t: Seq<(ThreadId, PickerEntryView)>,
    x: (ThreadId, PickerEntryView),
    id: ThreadId,
)
    ensures
        thread_position(t.push(x), id) == match thread_position(t, id) {
            Some(k) => Some(k),
            None => if x.0 == id {
                Some(t.len() as int)
            } else {
                None
            },
        },
    decreases t.len(),
{
    if t.len() > 0 {
        assert(t.push(x)[0] == t[0]);
        assert(t.push(x).drop_first() =~= t.drop_first().push(x));
        lemma_thread_position_push(t.drop_first(), x, id);
    } else {
        assert(t.push(x)[0] == x);
        assert(t.push(x).drop_first() =~= Seq::<(ThreadId, PickerEntryView)>::empty());
        assert(thread_position(Seq::<(ThreadId, PickerEntryView)>::empty(), id) is None);
    }
}

proof fn lemma_thread_position_prefix(t: Seq<(ThreadId, PickerEntryView)>, n: int, id: ThreadId)
    requires
        0 <= n <= t.len(),
        thread_position(t.take(n), id) is Some,
    ensures
        thread_position(t, id) == thread_position(t.take(n), id),
    decreases n,
{
    if t.len() > 0 && n > 0 {
        assert(t.take(n)[0] == t[0]);
        if t[0].0 != id {
            assert(t.take(n).drop_first() =~= t.drop_first().take(n - 1));
            lemma_thread_position_prefix(t.drop_first(), n - 1, id);
        }
    }
}

/// The first row of a thread among the picker's threads.
fn picker_position(visible: &Vec<(ThreadId, AgentPickerThreadEntry)>, id: ThreadId) -> (r: Option<usize>)
    ensures
        r matches Some(k) ==> thread_position(threads_view(visible@), id) == Some(k as int),
        r is None ==> thread_position(threads_view(visible@), id) is None,
{
    let ghost vis = threads_view(visible@);
    proof {
        lemma_threads_view(visible@);
    }
    let mut i: usize = 0;
    while i < visible.len()
        invariant
            i <= visible@.len(),
            vis == threads_view(visible@),
            vis.len() == visible@.len(),
            forall|j: int| 0 <= j < visible@.len() ==> #[trigger] vis[j] == (visible@[j].0, visible@[j].1@),
            thread_position(vis.take(i as int), id) is None,
        decreases visible@.len() - i,
    {
        proof {
            assert(vis.take(i + 1) =~= vis.take(i as int).push(vis[i as int]));
            lemma_thread_position_push(vis.take(i as int), vis[i as int], id);
        }
        if visible[i].0 == id {
            proof {
                lemma_thread_position_prefix(vis, i + 1, id);
            }
            return Some(i);
        }
        i = i + 1;
    }
    assert(vis.take(i as int) =~= vis);
    None
}

/// The model of the first cached session listed for a thread.
fn cached_model(cached: &Vec<(ThreadId, String)>, id: ThreadId) -> (r: Option<&String>)
    ensures
        match r {
            Some(m) => cached_model_of(cached_view(cached@), id) == Some(m@),
            None => cached_model_of(cached_view(cached@), id) is None,
        },
{
    let ghost c = cached_view(cached@);
    assert(c.subrange(0, c.len() as int) =~= c);
    let mut i: usize = 0;
    while i < cached.len()
        invariant
            i <= cached@.len(),
            c == cached_view(cached@),
            c.len() == cached@.len(),
            cached_model_of(c, id) == cached_model_of(c.subrange(i as int, c.len() as int), id),
        decreases cached@.len() - i,
    {
        let ghost rest = c.subrange(i as int, c.len() as int);
        assert(rest[0] == c[i as int]);
        assert(c[i as int] == (cached@[i as int].0, cached@[i as int].1@));
        if cached[i].0 == id {
            return Some(&cached[i].1);
        }
        assert(rest.drop_first() =~= c.subrange(i + 1, c.len() as int));
        i = i + 1;
    }
    assert(c.subrange(i as int, c.len() as int) =~= Seq::<(ThreadId, Seq<char>)>::empty());
    None
}

/// The cursor row after a repaint: the previously selected thread where it is still
/// listed, else the previous row clamped to the rows now shown.
pub open spec fn repaint_selection(
    previous: usize,
    selected_thread: Option<ThreadId>,
    vis: Seq<(ThreadId, PickerEntryView)>,
    completed: nat,
) -> Option<usize> {
    let found = match selected_thread {
        Some(id) => thread_position(vis, id),
        None => None,
    };
    match found {
        Some(k) => Some(k as usize),
        None => {
            let count = vis.len() + if completed > 0 { 1nat } else { 0nat };
            if count > 0 {
                Some(if previous < count - 1 { previous } else { (count - 1) as usize })
            } else {
                None
            }
        },
    }
}

/// The cursor after a repaint follows the thread it was on: when that thread is still
/// listed, the cursor goes to the thread's first row; only when it is not listed, or no
/// thread was selected, does the cursor keep its old row, clamped to the rows now shown
/// (the listed threads and, when some agent has completed, the toggle).
pub proof fn lemma_repaint_follows_selected_thread(
    previous: usize,
    selected_thread: Option<ThreadId>,
    vis: Seq<(ThreadId, PickerEntryView)>,
    completed: nat,
)
    ensures
        forall|k: int|
            #![trigger vis[k]]
            0 <= k < vis.len() && selected_thread == Some(vis[k].0) && (forall|j: int|
                0 <= j < k ==> vis[j].0 != vis[k].0) ==> repaint_selection(
                previous,
                selected_thread,
                vis,
                completed,
            ) == Some(k as usize),
        (forall|k: int| 0 <= k < vis.len() ==> selected_thread != Some(#[trigger] vis[k].0)) ==> {
            let rows = vis.len() + if completed > 0 {
                1int
            } else {
                0int
            };
            repaint_selection(previous, selected_thread, vis, completed) == if rows == 0 {
                None
            } else if previous < rows {
                Some(previous)
            } else {
                Some((rows - 1) as usize)
            }
        },
{
    if selected_thread is Some {
        let id = selected_thread->0;
        lemma_thread_position(vis, id);
        assert forall|k: int|
            #![trigger vis[k]]
            0 <= k < vis.len() && selected_thread == Some(vis[k].0) && (forall|j: int|
                0 <= j < k ==> vis[j].0 != vis[k].0) implies repaint_selection(
                previous,
                selected_thread,
                vis,
                completed,
            ) == Some(k as usize) by {
            let f = thread_position(vis, id)->0;
            assert(vis[f].0 == id);
            if f < k {
                assert(vis[f].0 != vis[k].0);
            }
            if k < f {
                assert(vis[k].0 == id);
            }
        }
    }
}

impl App {
    /// `p` is the picker content for the current state with the cursor requested on
    /// `selected`.
    pub open spec fn picker_params_hold(
        &self,
        p: SelectionViewParams,
        selected: Option<usize>,
        cached: Seq<(ThreadId, Seq<char>)>,
    ) -> bool {
        &&& p.view_id@ == AGENT_PICKER_VIEW_ID@
        &&& p.title@ == "Subagents"@
        &&& p.subtitle@ == "Live activity. "@ + self.agent_navigation.picker_subtitle@
        &&& p.footer_hint == FooterHint::StandardPopupHint
        &&& p.footer_note@ == "Tokens are cumulative usage reported by the server."@
        &&& p.min_description_width == 45
        &&& items_view(p.items@) == picker_items(
            self.picker_threads_now(),
            self.primary_thread_id,
            self.active_thread_id,
            self.agent_navigation.show_completed,
            self.agent_navigation.monitor@,
            cached,
            completed_count(
                self.agent_navigation@,
                self.primary_thread_id,
                self.agent_navigation.monitor@,
            ),
        )
        &&& match initial_index(selected, self.picker_threads_now(), self.active_thread_id) {
            Some(k) => p.initial_selected_idx == Some(k as usize),
            None => p.initial_selected_idx is None,
        }
    }

    /// The picker's threads for the current state.
    pub open spec fn picker_threads_now(&self) -> Seq<(ThreadId, PickerEntryView)> {
        picker_threads(
            self.agent_navigation@,
            self.primary_thread_id,
            self.agent_navigation.show_completed,
            self.agent_navigation.monitor@,
        )
    }

    /// Appends the listed threads of one group, in spawn order.
    fn push_picker_group(
        &self,
        threads: &Vec<(ThreadId, AgentPickerThreadEntry)>,
        group: u8,
        out: &mut Vec<(ThreadId, AgentPickerThreadEntry)>,
    )
        requires
            threads_view(threads@) == self.agent_navigation@,
        ensures
            threads_view(final(out)@) == threads_view(old(out)@) + picker_group_threads(
                self.agent_navigation@,
                group as int,
                self.primary_thread_id,
                self.agent_navigation.show_completed,
                self.agent_navigation.monitor@,
            ),
    {
        let ghost tv = threads_view(threads@);
        let ghost start = threads_view(out@);
        proof {
            lemma_threads_view(threads@);
        }
        let mut i: usize = 0;
        while i < threads.len()
            invariant
                i <= threads@.len(),
                tv == threads_view(threads@),
                tv == self.agent_navigation@,
                tv.len() == threads@.len(),
                forall|j: int| 0 <= j < threads@.len() ==> #[trigger] tv[j] == (threads@[j].0, threads@[j].1@),
                threads_view(out@) == start + picker_group_threads(
                    tv.take(i as int),
                    group as int,
                    self.primary_thread_id,
                    self.agent_navigation.show_completed,
                    self.agent_navigation.monitor@,
                ),
            decreases threads@.len() - i,
        {
            let id = threads[i].0;
            assert(tv.take(i + 1).drop_last() =~= tv.take(i as int));
            assert(tv.take(i + 1).last() == tv[i as int]);
            let is_primary = self.primary_thread_id == Some(id);
            let completed = self.agent_navigation.monitor.is_successfully_completed(id);
            let listed = is_primary || self.agent_navigation.show_completed || !completed;
            let g: u8 = if is_primary {
                0
            } else if completed {
                2
            } else {
                1
            };
            if listed && g == group {
                let entry = copy_picker_entry(&threads[i].1);
                let ghost before = out@;
                out.push((id, entry));
                proof {
                    lemma_threads_view(out@);
                    lemma_threads_view(before);
                    assert(threads_view(out@) =~= threads_view(before).push((id, entry@)));
                }
            }
            i = i + 1;
        }
        assert(tv.take(i as int) =~= tv);
    }

    /// The picker's threads: the primary thread, then agents that have not completed, then
    /// completed agents when they are shown; spawn order is kept within each group so that
    /// activity updates do not move the cursor.
    pub fn agent_picker_visible_threads(&self) -> (r: Vec<(ThreadId, AgentPickerThreadEntry)>)
        ensures
            threads_view(r@) == self.picker_threads_now(),
    {
        let threads = self.agent_navigation.ordered_threads();
        let mut out: Vec<(ThreadId, AgentPickerThreadEntry)> = Vec::new();
        assert(threads_view(out@) =~= Seq::<(ThreadId, PickerEntryView)>::empty());
        self.push_picker_group(&threads, 0, &mut out);
        self.push_picker_group(&threads, 1, &mut out);
        self.push_picker_group(&threads, 2, &mut out);
        out
    }

    /// The thread under the picker's cursor, given the cursor's row.
    pub fn agent_picker_selected_thread(&self, view_index: Option<usize>) -> (r: Option<ThreadId>)
        ensures
            r == match view_index {
                Some(i) => if i < self.picker_threads_now().len() {
                    Some(self.picker_threads_now()[i as int].0)
                } else {
                    None::<ThreadId>
                },
                None => None::<ThreadId>,
            },
    {
        let index = match view_index {
            Some(i) => i,
            None => return None,
        };
        let visible = self.agent_picker_visible_threads();
        proof {
            lemma_threads_view(visible@);
        }
        if index < visible.len() {
            Some(visible[index].0)
        } else {
            None
        }
    }

    /// The number of known agents, other than the primary thread, whose latest turn
    /// completed.
    pub fn agent_picker_completed_count(&self) -> (r: usize)
        ensures
            r == completed_count(
                self.agent_navigation@,
                self.primary_thread_id,
                self.agent_navigation.monitor@,
            ),
            r == self.agent_navigation@.filter(
                |x: (ThreadId, PickerEntryView)|
                    self.primary_thread_id != Some(x.0) && thread_completed(
                        self.agent_navigation.monitor@,
                        x.0,
                    ),
            ).len(),
    {
        proof {
            lemma_completed_count_skips_primary(
                self.agent_navigation@,
                self.primary_thread_id,
                self.agent_navigation.monitor@,
            );
        }
        let threads = self.agent_navigation.ordered_threads();
        let ghost tv = threads_view(threads@);
        proof {
            lemma_threads_view(threads@);
        }
        let mut count: usize = 0;
        let mut i: usize = 0;
        while i < threads.len()
            invariant
                i <= threads@.len(),
                tv == threads_view(threads@),
                tv == self.agent_navigation@,
                tv.len() == threads@.len(),
                forall|j: int| 0 <= j < threads@.len() ==> #[trigger] tv[j] == (threads@[j].0, threads@[j].1@),
                count == completed_count(tv.take(i as int), self.primary_thread_id, self.agent_navigation.monitor@),
                count <= i,
            decreases threads@.len() - i,
        {
            let id = threads[i].0;
            assert(tv.take(i + 1).drop_last() =~= tv.take(i as int));
            assert(tv.take(i + 1).last() == tv[i as int]);
            if self.primary_thread_id != Some(id) && self.agent_navigation.monitor.is_successfully_completed(id) {
                count = count + 1;
            }
            i = i + 1;
        }
        assert(tv.take(i as int) =~= tv);
        count
    }
}

impl App {
    /// The picker name of a listed thread.
    fn picker_name(&self, id: ThreadId, entry: &AgentPickerThreadEntry) -> (r: String)
        ensures
            r@ == picker_item_name(self.primary_thread_id, id, entry@),
    {
        let is_primary = self.primary_thread_id == Some(id);
        if !is_primary {
            if let Some(path) = &entry.agent_path {
                let chars = chars_of(path.as_str());
                let (a, b) = trim_bounds(&chars);
                if a < b {
                    return string_from_range(&chars, a, b);
                }
            }
        }
        format_agent_picker_item_name(
            match &entry.agent_nickname {
                Some(n) => Some(n.as_str()),
                None => None,
            },
            match &entry.agent_role {
                Some(r) => Some(r.as_str()),
                None => None,
            },
            is_primary,
        )
    }

    /// The picker row of one listed thread.
    fn picker_row(
        &self,
        id: ThreadId,
        entry: &AgentPickerThreadEntry,
        cached_models: &Vec<(ThreadId, String)>,
    ) -> (r: SelectionItem)
        ensures
            r@ == picker_item(
                self.primary_thread_id,
                self.active_thread_id,
                self.agent_navigation.monitor@,
                cached_view(cached_models@),
                id,
                entry@,
            ),
    {
        let name = self.picker_name(id, entry);
        let summary = self.agent_navigation.monitor.describe(id, entry.is_running, entry.is_closed);
        let mut description = status_field(summary.status);
        match &summary.model {
            Some(m) => description.append(m.as_str()),
            None => match cached_model(cached_models, id) {
                Some(c) => if c.as_str().is_empty() {
                    description.append("model unknown")
                } else {
                    description.append(c.as_str())
                },
                None => description.append("model unknown"),
            },
        }
        description.append(" · ");
        let tokens = tokens_field(summary.total_tokens);
        description.append(tokens.as_str());
        append_activity(&mut description, &summary.activity);
        let mut search = name.clone();
        search.append(" ");
        let uuid_text = id.to_uuid_string();
        search.append(uuid_text.as_str());
        SelectionItem {
            name,
            description: Some(description),
            is_current: self.active_thread_id == Some(id),
            action: AppEvent::SelectAgentThread(id),
            dismiss_on_select: true,
            search_value: Some(search),
        }
    }

    /// The content of the picker: a row per listed thread with its status, model, tokens
    /// and activity, then the completed-agents toggle when some agent has completed. The
    /// cursor starts on `selected`, else on the shown thread.
    pub fn agent_picker_selection_view_params(
        &self,
        selected: Option<usize>,
        cached_models: &Vec<(ThreadId, String)>,
    ) -> (r: SelectionViewParams)
        ensures
            self.picker_params_hold(r, selected, cached_view(cached_models@)),
    {
        let visible = self.agent_picker_visible_threads();
        let ghost vis = threads_view(visible@);
        let ghost cached = cached_view(cached_models@);
        let ghost all_rows = Seq::new(
            vis.len(),
            |k: int| picker_item(
                self.primary_thread_id,
                self.active_thread_id,
                self.agent_navigation.monitor@,
                cached,
                vis[k].0,
                vis[k].1,
            ),
        );
        proof {
            lemma_threads_view(visible@);
        }
        let mut initial_selected_idx = selected;
        let mut items: Vec<SelectionItem> = Vec::new();
        let mut idx: usize = 0;
        while idx < visible.len()
            invariant
                idx <= visible@.len(),
                vis == threads_view(visible@),
                vis.len() == visible@.len(),
                vis == self.picker_threads_now(),
                cached == cached_view(cached_models@),
                forall|j: int| 0 <= j < visible@.len() ==> #[trigger] vis[j] == (visible@[j].0, visible@[j].1@),
                all_rows.len() == vis.len(),
                forall|k: int| 0 <= k < vis.len() ==> #[trigger] all_rows[k] == picker_item(
                    self.primary_thread_id,
                    self.active_thread_id,
                    self.agent_navigation.monitor@,
                    cached,
                    vis[k].0,
                    vis[k].1,
                ),
                items_view(items@) == all_rows.take(idx as int),
                match initial_index(selected, vis.take(idx as int), self.active_thread_id) {
                    Some(k) => initial_selected_idx == Some(k as usize),
                    None => initial_selected_idx is None,
                },
            decreases visible@.len() - idx,
        {
            let thread_id = visible[idx].0;
            proof {
                assert(vis.take(idx + 1) =~= vis.take(idx as int).push(vis[idx as int]));
                if self.active_thread_id is Some {
                    lemma_thread_position_push(vis.take(idx as int), vis[idx as int], self.active_thread_id->0);
                    lemma_thread_position(vis.take(idx as int), self.active_thread_id->0);
                }
            }
            if initial_selected_idx.is_none() && self.active_thread_id == Some(thread_id) {
                initial_selected_idx = Some(idx);
            }
            let row = self.picker_row(thread_id, &visible[idx].1, cached_models);
            let ghost before = items@;
            items.push(row);
            proof {
                assert(items_view(items@) =~= items_view(before).push(row@));
                assert(all_rows.take(idx + 1) =~= all_rows.take(idx as int).push(all_rows[idx as int]));
            }
            idx = idx + 1;
        }
        assert(all_rows.take(idx as int) =~= all_rows);
        assert(vis.take(idx as int) =~= vis);
        let completed = self.agent_picker_completed_count();
        if completed > 0 {
            let mut name = if self.agent_navigation.show_completed {
                "Hide".to_owned()
            } else {
                "Show".to_owned()
            };
            name.append(" completed (");
            let count = u64_to_decimal(completed as u64);
            name.append(count.as_str());
            name.append(")");
            let toggle = SelectionItem {
                name,
                description: None,
                is_current: false,
                action: AppEvent::ToggleCompletedAgents,
                dismiss_on_select: false,
                search_value: None,
            };
            let ghost before = items@;
            items.push(toggle);
            assert(items_view(items@) =~= items_view(before).push(toggle@));
        }
        let mut subtitle = "Live activity. ".to_owned();
        subtitle.append(self.agent_navigation.picker_subtitle());
        SelectionViewParams {
            view_id: AGENT_PICKER_VIEW_ID,
            title: "Subagents".to_owned(),
            subtitle,
            footer_hint: FooterHint::StandardPopupHint,
            footer_note: "Tokens are cumulative usage reported by the server.".to_owned(),
            min_description_width: 45,
            items,
            initial_selected_idx,
        }
    }
}

impl App {
    /// The new content of the picker when it is open (`view_index` is its cursor row):
    /// the cursor stays on `selected_thread` while it is listed, else on the same row,
    /// clamped to the rows now shown. Nothing when the picker is not open.
    pub fn repaint_agent_picker(
        &self,
        view_index: Option<usize>,
        selected_thread: Option<ThreadId>,
        cached_models: &Vec<(ThreadId, String)>,
    ) -> (r: Option<SelectionViewParams>)
        ensures
            r is None <==> view_index is None,
            r matches Some(p) ==> forall|k: int|
                #![trigger self.picker_threads_now()[k]]
                0 <= k < self.picker_threads_now().len() && selected_thread == Some(
                    self.picker_threads_now()[k].0,
                ) && (forall|j: int|
                    0 <= j < k ==> self.picker_threads_now()[j].0 != self.picker_threads_now()[k].0)
                    ==> p.initial_selected_idx == Some(k as usize) && items_view(p.items@)[k].action
                    == AppEvent::SelectAgentThread(self.picker_threads_now()[k].0),
            r matches Some(p) ==> self.picker_params_hold(
                p,
                repaint_selection(
                    view_index->0,
                    selected_thread,
                    self.picker_threads_now(),
                    completed_count(
                        self.agent_navigation@,
                        self.primary_thread_id,
                        self.agent_navigation.monitor@,
                    ),
                ),
                cached_view(cached_models@),
            ),
    {
        let previous_index = match view_index {
            Some(i) => i,
            None => return None,
        };
        let visible = self.agent_picker_visible_threads();
        let ghost vis = threads_view(visible@);
        proof {
            lemma_threads_view(visible@);
        }
        proof {
            lemma_repaint_follows_selected_thread(
                previous_index,
                selected_thread,
                vis,
                completed_count(
                    self.agent_navigation@,
                    self.primary_thread_id,
                    self.agent_navigation.monitor@,
                ),
            );
        }
        let found = match selected_thread {
            Some(id) => picker_position(&visible, id),
            None => None,
        };
        let selected = match found {
            Some(k) => Some(k),
            None => {
                let completed = self.agent_picker_completed_count();
                if visible.len() == 0 && completed == 0 {
                    None
                } else {
                    let last = if completed > 0 {
                        visible.len()
                    } else {
                        visible.len() - 1
                    };
                    Some(
                        if previous_index < last {
                            previous_index
                        } else {
                            last
                        },
                    )
                }
            },
        };
        Some(self.agent_picker_selection_view_params(selected, cached_models))
    }
}

/// Whatever state the primary thread is in, when no other known thread has completed
/// the picker has exactly one row per listed thread, each selecting its thread, and no
/// completed-agents toggle.
pub proof fn lemma_no_toggle_without_completed_agents(
    app: &App,
    p: SelectionViewParams,
    selected: Option<usize>,
    cached: Seq<(ThreadId, Seq<char>)>,
)
    requires
        app.picker_params_hold(p, selected, cached),
        forall|i: int|
            0 <= i < app.agent_navigation@.len() ==> app.primary_thread_id == Some(
                #[trigger] app.agent_navigation@[i].0,
            ) || !thread_completed(app.agent_navigation.monitor@, app.agent_navigation@[i].0),
    ensures
        p.items@.len() == app.picker_threads_now().len(),
        forall|k: int|
            0 <= k < p.items@.len() ==> (#[trigger] p.items@[k]).action == AppEvent::SelectAgentThread(
                app.picker_threads_now()[k].0,
            ),
{
    lemma_completed_count_skips_primary(
        app.agent_navigation@,
        app.primary_thread_id,
        app.agent_navigation.monitor@,
    );
    let iv = items_view(p.items@);
    assert(iv.len() == p.items@.len());
    assert forall|k: int| 0 <= k < p.items@.len() implies (#[trigger] p.items@[k]).action
        == AppEvent::SelectAgentThread(app.picker_threads_now()[k].0) by {
        assert(iv[k] == p.items@[k]@);
    }
}

proof fn lemma_group_members(
    t: Seq<(ThreadId, PickerEntryView)>,
    group: int,
    primary: Option<ThreadId>,
    show_completed: bool,
    monitor: Map<u128, MonitorEntryView>,
)
    ensures
        forall|k: int|
            0 <= k < picker_group_threads(t, group, primary, show_completed, monitor).len() ==> {
                let x = #[trigger] picker_group_threads(t, group, primary, show_completed, monitor)[k];
                &&& picker_group(primary, monitor, x.0) == group
                &&& picker_lists(primary, show_completed, monitor, x.0)
                &&& t.contains(x)
            },
    decreases t.len(),
{
    if t.len() > 0 {
        let rest = t.drop_last();
        lemma_group_members(rest, group, primary, show_completed, monitor);
        let g = picker_group_threads(t, group, primary, show_completed, monitor);
        let before = picker_group_threads(rest, group, primary, show_completed, monitor);
        assert forall|k: int| 0 <= k < g.len() implies {
            let x = #[trigger] g[k];
            &&& picker_group(primary, monitor, x.0) == group
            &&& picker_lists(primary, show_completed, monitor, x.0)
            &&& t.contains(x)
        } by {
            if k < before.len() {
                assert(g[k] == before[k]);
                let j = choose|j: int| 0 <= j < rest.len() && rest[j] == before[k];
                assert(t[j] == rest[j]);
            } else {
                assert(t[t.len() - 1] == t.last());
            }
        }
    }
}

/// The picker lists the primary thread first, then agents that have not completed, then
/// completed agents; completed agents appear only while they are shown; and every row is
/// a known thread.
pub proof fn lemma_picker_groups_in_order(
    t: Seq<(ThreadId, PickerEntryView)>,
    primary: Option<ThreadId>,
    show_completed: bool,
    monitor: Map<u128, MonitorEntryView>,
)
    ensures
        ({
            let p = picker_threads(t, primary, show_completed, monitor);
            &&& forall|i: int, j: int|
                0 <= i < j < p.len() ==> picker_group(primary, monitor, #[trigger] p[i].0)
                    <= picker_group(primary, monitor, #[trigger] p[j].0)
            &&& forall|i: int| 0 <= i < p.len() ==> t.contains(#[trigger] p[i])
            &&& !show_completed ==> forall|i: int|
                0 <= i < p.len() ==> primary == Some(#[trigger] p[i].0) || !thread_completed(
                    monitor,
                    p[i].0,
                )
        }),
{
    lemma_group_members(t, 0, primary, show_completed, monitor);
    lemma_group_members(t, 1, primary, show_completed, monitor);
    lemma_group_members(t, 2, primary, show_completed, monitor);
    let a = picker_group_threads(t, 0, primary, show_completed, monitor);
    let b = picker_group_threads(t, 1, primary, show_completed, monitor);
    let c = picker_group_threads(t, 2, primary, show_completed, monitor);
    let p = picker_threads(t, primary, show_completed, monitor);
    assert(p == a + b + c);
    assert forall|i: int| 0 <= i < p.len() implies {
        &&& picker_group(primary, monitor, p[i].0) == if i < a.len() {
            0int
        } else if i < a.len() + b.len() {
            1int
        } else {
            2int
        }
        &&& picker_lists(primary, show_completed, monitor, p[i].0)
        &&& t.contains(p[i])
    } by {
        if i < a.len() {
            assert(p[i] == a[i]);
        } else if i < a.len() + b.len() {
            assert(p[i] == b[i - a.len()]);
        } else {
            assert(p[i] == c[i - a.len() - b.len()]);
        }
    }
}

} // verus!
