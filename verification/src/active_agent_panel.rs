//! Keeps the persistent panel scoped to active children of this primary session.

use vstd::prelude::*;
use vstd::string::StringExecFns;
use crate::agent_monitor::AgentMonitorStatus;
use crate::agent_monitor::DescriptionView;
use crate::agent_monitor::MonitorEntryView;
use crate::agent_monitor::description_of;
use crate::agent_monitor::status_label_text;
use crate::agent_navigation::PickerEntryView;
use crate::agent_navigation::format_agent_picker_item_name;
use crate::agent_navigation::item_name_text;
use crate::agent_navigation::lemma_threads_view;
use crate::agent_navigation::threads_view;
use crate::agent_panel::AgentPanelRow;
use crate::agent_panel::PanelRowView;
use crate::agent_panel::panel_with_rows;
use crate::agent_panel::rows_view;
use crate::app::App;
use crate::app::append_activity;
use crate::app::contains_id;
use crate::app::model_text;
use crate::app::status_field;
use crate::app::tokens_field;
use crate::app::tokens_text;
use crate::app::with_activity;
use crate::thread_id::ThreadId;

verus! {

/// The detail of a panel row: status, tokens, model, and the activity if any.
pub open spec fn panel_detail_text(d: DescriptionView) -> Seq<char> {
    with_activity(
        status_label_text(d.status) + " · "@ + tokens_text(d.total_tokens) + " · "@ + model_text(
            d.model,
        ),
        d.activity,
    )
}

/// The panel row of one known thread: none for the primary thread, side conversations,
/// and agents that are neither running nor waiting.
pub open spec fn panel_row_of(
    primary: Option<ThreadId>,
    sides: Seq<ThreadId>,
    monitor: Map<u128, MonitorEntryView>,
    id: ThreadId,
    e: PickerEntryView,
) -> Option<PanelRowView> {
    let d = description_of(monitor, id, e.is_running, e.is_closed);
    if primary == Some(id) || sides.contains(id) {
        None
    } else if !(d.status == AgentMonitorStatus::Running || d.status == AgentMonitorStatus::Waiting) {
        None
    } else {
        Some(
            PanelRowView {
                thread_id: id,
                name: match e.agent_path {
                    Some(p) => p,
                    None => item_name_text(e.agent_nickname, e.agent_role, false),
                },
                detail: panel_detail_text(d),
            },
        )
    }
}

/// The panel rows for the known threads, in spawn order.
pub open spec fn active_panel_rows(
    threads: Seq<(ThreadId, PickerEntryView)>,
    primary: Option<ThreadId>,
    sides: Seq<ThreadId>,
    monitor: Map<u128, MonitorEntryView>,
) -> Seq<PanelRowView>
    decreases threads.len(),
{
    if threads.len() == 0 {
        Seq::empty()
    } else {
        let before = active_panel_rows(threads.drop_last(), primary, sides, monitor);
        match panel_row_of(primary, sides, monitor, threads.last().0, threads.last().1) {
            Some(r) => before.push(r),
            None => before,
        }
    }
}

/// The thread that Escape returns to: the primary thread while another is shown.
pub open spec fn return_thread_of(primary: Option<ThreadId>, active: Option<ThreadId>) -> Option<ThreadId> {
    match primary {
        Some(p) => if active != Some(p) {
            Some(p)
        } else {
            None
        },
        None => None,
    }
}

impl App {
    /// Rebuilds the active-agent panel from the known agents; reports whether to redraw.
    pub fn sync_active_agent_panel(&mut self) -> (redraw: bool)
        ensures
            final(self).primary_thread_id == old(self).primary_thread_id,
            final(self).active_thread_id == old(self).active_thread_id,
            final(self).side_threads@ == old(self).side_threads@,
            final(self).agent_navigation == old(self).agent_navigation,
            final(self).bottom_pane.agent_panel_return_thread == return_thread_of(
                old(self).primary_thread_id,
                old(self).active_thread_id,
            ),
            final(self).bottom_pane.agent_panel@ == panel_with_rows(
                old(self).bottom_pane.agent_panel@,
                active_panel_rows(
                    old(self).agent_navigation@,
                    old(self).primary_thread_id,
                    old(self).side_threads@,
                    old(self).agent_navigation.monitor@,
                ),
            ),
            redraw == (old(self).bottom_pane.agent_panel@.rows != active_panel_rows(
                old(self).agent_navigation@,
                old(self).primary_thread_id,
                old(self).side_threads@,
                old(self).agent_navigation.monitor@,
            )),
    {
        let threads = self.agent_navigation.ordered_threads();
        let ghost tv = threads_view(threads@);
        let ghost primary = self.primary_thread_id;
        let ghost sides = self.side_threads@;
        let ghost monitor = self.agent_navigation.monitor@;
        proof {
            lemma_threads_view(threads@);
        }
        let mut rows: Vec<AgentPanelRow> = Vec::new();
        let mut i: usize = 0;
        while i < threads.len()
            invariant
                i <= threads@.len(),
                tv == threads_view(threads@),
                tv.len() == threads@.len(),
                forall|j: int| 0 <= j < threads@.len() ==> #[trigger] tv[j] == (threads@[j].0, threads@[j].1@),
                primary == self.primary_thread_id,
                sides == self.side_threads@,
                monitor == self.agent_navigation.monitor@,
                rows_view(rows@) == active_panel_rows(tv.take(i as int), primary, sides, monitor),
            decreases threads@.len() - i,
        {
            let id = threads[i].0;
            let entry = &threads[i].1;
            assert(tv.take(i + 1).drop_last() =~= tv.take(i as int));
            assert(tv.take(i + 1).last() == tv[i as int]);
            let skip = self.primary_thread_id == Some(id) || contains_id(&self.side_threads, id);
            if !skip {
                let state = self.agent_navigation.monitor.describe(id, entry.is_running, entry.is_closed);
                let shown = match state.status {
                    AgentMonitorStatus::Running | AgentMonitorStatus::Waiting => true,
                    _ => false,
                };
                if shown {
                    let name = match &entry.agent_path {
                        Some(path) => path.clone(),
                        None => format_agent_picker_item_name(
                            match &entry.agent_nickname {
                                Some(n) => Some(n.as_str()),
                                None => None,
                            },
                            match &entry.agent_role {
                                Some(r) => Some(r.as_str()),
                                None => None,
                            },
                            false,
                        ),
                    };
                    let mut detail = status_field(state.status);
                    let tokens = tokens_field(state.total_tokens);
                    detail.append(tokens.as_str());
                    detail.append(" · ");
                    match &state.model {
                        Some(m) => detail.append(m.as_str()),
                        None => detail.append("model unknown"),
                    }
                    append_activity(&mut detail, &state.activity);
                    let row = AgentPanelRow { thread_id: id, name, detail };
                    let ghost before = rows@;
                    rows.push(row);
                    proof {
                        assert(rows_view(rows@) =~= rows_view(before).push(row@));
                        assert(row@ == panel_row_of(primary, sides, monitor, id, tv[i as int].1)->0);
                    }
                }
            }
            i = i + 1;
        }
        assert(tv.take(i as int) =~= tv);
        let return_thread = match self.primary_thread_id {
            Some(p) => if self.active_thread_id != Some(p) {
                Some(p)
            } else {
                None
            },
            None => None,
        };
        self.bottom_pane.set_active_agent_panel(rows, return_thread)
    }
}

/// The panel lists only children of this session that are running or waiting: never
/// the primary thread, a side conversation, or an agent that has finished.
pub proof fn lemma_panel_lists_only_active_children(
    threads: Seq<(ThreadId, PickerEntryView)>,
    primary: Option<ThreadId>,
    sides: Seq<ThreadId>,
    monitor: Map<u128, MonitorEntryView>,
)
    ensures
        active_panel_rows(threads, primary, sides, monitor).len() <= threads.len(),
        forall|i: int|
            0 <= i < active_panel_rows(threads, primary, sides, monitor).len() ==> {
                let id = #[trigger] active_panel_rows(threads, primary, sides, monitor)[i].thread_id;
                &&& primary != Some(id)
                &&& !sides.contains(id)
                &&& exists|j: int|
                    0 <= j < threads.len() && threads[j].0 == id && {
                        let st = description_of(
                            monitor,
                            id,
                            threads[j].1.is_running,
                            threads[j].1.is_closed,
                        ).status;
                        st == AgentMonitorStatus::Running || st == AgentMonitorStatus::Waiting
                    }
            },
    decreases threads.len(),
{
    if threads.len() > 0 {
        let rest = threads.drop_last();
        lemma_panel_lists_only_active_children(rest, primary, sides, monitor);
        let rows = active_panel_rows(threads, primary, sides, monitor);
        let before = active_panel_rows(rest, primary, sides, monitor);
        assert forall|i: int| 0 <= i < rows.len() implies {
            let id = #[trigger] rows[i].thread_id;
            &&& primary != Some(id)
            &&& !sides.contains(id)
            &&& exists|j: int|
                0 <= j < threads.len() && threads[j].0 == id && {
                    let st = description_of(
                        monitor,
                        id,
                        threads[j].1.is_running,
                        threads[j].1.is_closed,
                    ).status;
                    st == AgentMonitorStatus::Running || st == AgentMonitorStatus::Waiting
                }
        } by {
            if i < before.len() {
                assert(rows[i] == before[i]);
                let id = before[i].thread_id;
                let j = choose|j: int|
                    0 <= j < rest.len() && rest[j].0 == id && {
                        let st = description_of(monitor, id, rest[j].1.is_running, rest[j].1.is_closed).status;
                        st == AgentMonitorStatus::Running || st == AgentMonitorStatus::Waiting
                    };
                assert(threads[j] == rest[j]);
            } else {
                let j = threads.len() - 1;
                assert(threads[j] == threads.last());
            }
        }
    }
}

/// Every panel row shows the state that the monitor describes for its thread: the status,
/// the tokens and the model, then ` · ` and the current activity when there is one, and
/// nothing after the model when there is none.
pub proof fn lemma_panel_rows_show_activity(
    threads: Seq<(ThreadId, PickerEntryView)>,
    primary: Option<ThreadId>,
    sides: Seq<ThreadId>,
    monitor: Map<u128, MonitorEntryView>,
)
    ensures
        forall|i: int|
            0 <= i < active_panel_rows(threads, primary, sides, monitor).len() ==> {
                let row = #[trigger] active_panel_rows(threads, primary, sides, monitor)[i];
                exists|j: int|
                    0 <= j < threads.len() && threads[j].0 == row.thread_id && {
                        let d = description_of(
                            monitor,
                            threads[j].0,
                            threads[j].1.is_running,
                            threads[j].1.is_closed,
                        );
                        let base = status_label_text(d.status) + " · "@ + tokens_text(
                            d.total_tokens,
                        ) + " · "@ + model_text(d.model);
                        row.detail == match d.activity {
                            Some(a) => base + " · "@ + a,
                            None => base,
                        }
                    }
            },
    decreases threads.len(),
{
    if threads.len() > 0 {
        let rest = threads.drop_last();
        lemma_panel_rows_show_activity(rest, primary, sides, monitor);
        let rows = active_panel_rows(threads, primary, sides, monitor);
        let before = active_panel_rows(rest, primary, sides, monitor);
        assert forall|i: int| 0 <= i < rows.len() implies {
            let row = #[trigger] rows[i];
            exists|j: int|
                0 <= j < threads.len() && threads[j].0 == row.thread_id && {
                    let d = description_of(
                        monitor,
                        threads[j].0,
                        threads[j].1.is_running,
                        threads[j].1.is_closed,
                    );
                    let base = status_label_text(d.status) + " · "@ + tokens_text(d.total_tokens)
                        + " · "@ + model_text(d.model);
                    row.detail == match d.activity {
                        Some(a) => base + " · "@ + a,
                        None => base,
                    }
                }
        } by {
            if i < before.len() {
                assert(rows[i] == before[i]);
                let row = before[i];
                let j = choose|j: int|
                    0 <= j < rest.len() && rest[j].0 == row.thread_id && {
                        let d = description_of(monitor, rest[j].0, rest[j].1.is_running, rest[j].1.is_closed);
                        let base = status_label_text(d.status) + " · "@ + tokens_text(
                            d.total_tokens,
                        ) + " · "@ + model_text(d.model);
                        row.detail == match d.activity {
                            Some(a) => base + " · "@ + a,
                            None => base,
                        }
                    };
                assert(threads[j] == rest[j]);
            } else {
                let j = threads.len() - 1;
                assert(threads[j] == threads.last());
            }
        }
    }
}

} // verus!
