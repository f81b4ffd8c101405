//! The application state that the agent views read: which thread is primary and which is
//! shown, the side conversations, the known agents, and the bottom pane.

use vstd::prelude::*;
use vstd::string::StringExecFns;
use crate::agent_monitor::status_label_text;
use crate::agent_navigation::AgentNavigationState;
use crate::agent_panel_routing::BottomPane;
use crate::text::i64_to_decimal;
use crate::text::signed_decimal_text;
use crate::thread_id::ThreadId;

verus! {

/// The application state around the agent views.
#[derive(Debug)]
pub struct App {
    /// The root thread of this session.
    pub primary_thread_id: Option<ThreadId>,
    /// The thread whose transcript is shown.
    pub active_thread_id: Option<ThreadId>,
    /// Side conversations, which are never listed as agents.
    pub side_threads: Vec<ThreadId>,
    pub agent_navigation: AgentNavigationState,
    pub bottom_pane: BottomPane,
}

/// The token field: the cumulative count, or a note that it is not known.
pub open spec fn tokens_text(total: Option<i64>) -> Seq<char> {
    match total {
        Some(c) => signed_decimal_text(c as int) + " tokens"@,
        None => "tokens unavailable"@,
    }
}

/// The model field, or a note that it is not known.
pub open spec fn model_text(model: Option<Seq<char>>) -> Seq<char> {
    match model {
        Some(m) => m,
        None => "model unknown"@,
    }
}

/// A detail line with the activity appended when there is one.
pub open spec fn with_activity(base: Seq<char>, activity: Option<Seq<char>>) -> Seq<char> {
    match activity {
        Some(a) => base + " · "@ + a,
        None => base,
    }
}

/// Whether `v` lists `id`.
pub fn contains_id(v: &Vec<ThreadId>, id: ThreadId) -> (r: bool)
    ensures
        r == v@.contains(id),
{
    let mut i: usize = 0;
    while i < v.len()
        invariant
            i <= v@.len(),
            forall|j: int| 0 <= j < i ==> v@[j] != id,
        decreases v@.len() - i,
    {
        if v[i] == id {
            assert(v@[i as int] == id);
            return true;
        }
        i = i + 1;
    }
    false
}

/// The token field for a count that may be unknown.
pub fn tokens_field(total: Option<i64>) -> (r: String)
    ensures
        r@ == tokens_text(total),
{
    match total {
        Some(count) => {
            let mut out = i64_to_decimal(count);
            out.append(" tokens");
            out
        },
        None => "tokens unavailable".to_owned(),
    }
}

/// Appends ` · <activity>` when there is an activity.
pub fn append_activity(base: &mut String, activity: &Option<String>)
    ensures
        final(base)@ == with_activity(old(base)@, crate::agent_monitor::opt_text(*activity)),
{
    if let Some(a) = activity {
        base.append(" · ");
        base.append(a.as_str());
    }
}

/// `<status> · ` as the first field of a detail line.
pub fn status_field(status: crate::agent_monitor::AgentMonitorStatus) -> (r: String)
    ensures
        r@ == status_label_text(status) + " · "@,
{
    let mut out = status.label().to_owned();
    out.append(" · ");
    out
}

} // verus!
