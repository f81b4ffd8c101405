//! The known agent threads in spawn order, with what the picker shows of each.

use vstd::prelude::*;
use vstd::string::StringExecFns;
use crate::agent_monitor::AgentMonitorState;
use crate::agent_monitor::opt_text;
use crate::text::chars_of;
use crate::text::string_from_range;
use crate::text::trim_bounds;
use crate::text::trimmed;
use crate::thread_id::ThreadId;

verus! {

/// What the navigation state keeps of one agent thread.
#[derive(Clone, Debug)]
pub struct AgentPickerThreadEntry {
    pub agent_nickname: Option<String>,
    pub agent_role: Option<String>,
    pub agent_path: Option<String>,
    pub is_running: bool,
    pub is_closed: bool,
}

/// The value of an entry.
#[verifier::ext_equal]
pub struct PickerEntryView {
    pub agent_nickname: Option<Seq<char>>,
    pub agent_role: Option<Seq<char>>,
    pub agent_path: Option<Seq<char>>,
    pub is_running: bool,
    pub is_closed: bool,
}

impl View for AgentPickerThreadEntry {
    type V = PickerEntryView;

    open spec fn view(&self) -> PickerEntryView {
        PickerEntryView {
            agent_nickname: opt_text(self.agent_nickname),
            agent_role: opt_text(self.agent_role),
            agent_path: opt_text(self.agent_path),
            is_running: self.is_running,
            is_closed: self.is_closed,
        }
    }
}

/// The values of a run of threads.
pub open spec fn threads_view(t: Seq<(ThreadId, AgentPickerThreadEntry)>) -> Seq<(ThreadId, PickerEntryView)> {
    t.map_values(|p: (ThreadId, AgentPickerThreadEntry)| (p.0, p.1@))
}

/// The values of a run of threads line up with the threads.
pub proof fn lemma_threads_view(t: Seq<(ThreadId, AgentPickerThreadEntry)>)
    ensures
        threads_view(t).len() == t.len(),
        forall|i: int| 0 <= i < t.len() ==> #[trigger] threads_view(t)[i] == (t[i].0, t[i].1@),
{
}

/// An optional text, trimmed, and absent when that leaves nothing.
pub open spec fn nonblank(o: Option<Seq<char>>) -> Option<Seq<char>> {
    match o {
        Some(s) => if trimmed(s).len() > 0 {
            Some(trimmed(s))
        } else {
            None
        },
        None => None,
    }
}

/// The picker name of an agent from its nickname and role.
pub open spec fn item_name_text(
    nickname: Option<Seq<char>>,
    role: Option<Seq<char>>,
    is_primary: bool,
) -> Seq<char> {
    if is_primary {
        "Main [default]"@
    } else {
        match (nonblank(nickname), nonblank(role)) {
            (Some(n), Some(r)) => n + " ["@ + r + "]"@,
            (Some(n), None) => n,
            (None, Some(r)) => "["@ + r + "]"@,
            (None, None) => "Agent"@,
        }
    }
}

/// The first position of a thread in a run of threads.
pub open spec fn thread_position(t: Seq<(ThreadId, PickerEntryView)>, id: ThreadId) -> Option<int>
    decreases t.len(),
{
    if t.len() == 0 {
        None
    } else if t[0].0 == id {
        Some(0)
    } else {
        match thread_position(t.drop_first(), id) {
            Some(i) => Some(i + 1),
            None => None,
        }
    }
}

/// The threads after adding one, or renaming a known one and setting whether it is closed.
pub open spec fn nav_upsert(
    t: Seq<(ThreadId, PickerEntryView)>,
    id: ThreadId,
    nickname: Option<Seq<char>>,
    role: Option<Seq<char>>,
    is_closed: bool,
) -> Seq<(ThreadId, PickerEntryView)> {
    match thread_position(t, id) {
        Some(k) => t.update(
            k,
            (id, PickerEntryView { agent_nickname: nickname, agent_role: role, is_closed, ..t[k].1 }),
        ),
        None => t.push(
            (
                id,
                PickerEntryView {
                    agent_nickname: nickname,
                    agent_role: role,
                    agent_path: None,
                    is_running: false,
                    is_closed,
                },
            ),
        ),
    }
}

/// The threads after setting the agent path of a known one.
pub open spec fn nav_set_path(
    t: Seq<(ThreadId, PickerEntryView)>,
    id: ThreadId,
    path: Option<Seq<char>>,
) -> Seq<(ThreadId, PickerEntryView)> {
    match thread_position(t, id) {
        Some(k) => t.update(k, (id, PickerEntryView { agent_path: path, ..t[k].1 })),
        None => t,
    }
}

/// The threads after setting whether a known one is running.
pub open spec fn nav_set_running(
    t: Seq<(ThreadId, PickerEntryView)>,
    id: ThreadId,
    is_running: bool,
) -> Seq<(ThreadId, PickerEntryView)> {
    match thread_position(t, id) {
        Some(k) => t.update(k, (id, PickerEntryView { is_running, ..t[k].1 })),
        None => t,
    }
}

/// The known agent threads, in spawn order, the completed-agents toggle, and the monitor.
#[derive(Debug)]
pub struct AgentNavigationState {
    pub threads: Vec<(ThreadId, AgentPickerThreadEntry)>,
    pub show_completed: bool,
    pub monitor: AgentMonitorState,
    /// Threads whose input is owned by their parent session.
    pub parent_owned: Vec<ThreadId>,
    /// The key hint shown under the picker's title.
    pub picker_subtitle: String,
    /// The picker refresh in flight: its root thread and request id.
    pub pending_picker_refresh: Option<(ThreadId, u128)>,
}

impl View for AgentNavigationState {
    type V = Seq<(ThreadId, PickerEntryView)>;

    open spec fn view(&self) -> Seq<(ThreadId, PickerEntryView)> {
        threads_view(self.threads@)
    }
}

/// A copy of an optional string.
pub fn copy_opt(o: &Option<String>) -> (r: Option<String>)
    ensures
        opt_text(r) == opt_text(*o),
{
    match o {
        Some(s) => Some(s.clone()),
        None => None,
    }
}

/// A copy of an entry.
pub fn copy_picker_entry(e: &AgentPickerThreadEntry) -> (r: AgentPickerThreadEntry)
    ensures
        r@ == e@,
{
    AgentPickerThreadEntry {
        agent_nickname: copy_opt(&e.agent_nickname),
        agent_role: copy_opt(&e.agent_role),
        agent_path: copy_opt(&e.agent_path),
        is_running: e.is_running,
        is_closed: e.is_closed,
    }
}

impl AgentNavigationState {
    /// No threads, completed agents hidden, and the given monitor.
    pub fn new(monitor: AgentMonitorState, picker_subtitle: String) -> (r: AgentNavigationState)
        ensures
            r@.len() == 0,
            r.parent_owned@.len() == 0,
            !r.show_completed,
            r.monitor@ == monitor@,
            r.picker_subtitle@ == picker_subtitle@,
            r.pending_picker_refresh is None,
    {
        let r = AgentNavigationState {
            threads: Vec::new(),
            show_completed: false,
            monitor,
            parent_owned: Vec::new(),
            picker_subtitle,
            pending_picker_refresh: None,
        };
        assert(threads_view(r.threads@) =~= Seq::<(ThreadId, PickerEntryView)>::empty());
        r
    }

    /// The key hint shown under the picker's title.
    pub fn picker_subtitle(&self) -> (r: &str)
        ensures
            r@ == self.picker_subtitle@,
    {
        self.picker_subtitle.as_str()
    }

    /// The threads in spawn order.
    pub fn ordered_threads(&self) -> (r: Vec<(ThreadId, AgentPickerThreadEntry)>)
        ensures
            threads_view(r@) == self@,
    {
        let mut out: Vec<(ThreadId, AgentPickerThreadEntry)> = Vec::new();
        let mut i: usize = 0;
        while i < self.threads.len()
            invariant
                i <= self.threads@.len(),
                out@.len() == i,
                threads_view(out@) == threads_view(self.threads@).take(i as int),
            decreases self.threads@.len() - i,
        {
            let id = self.threads[i].0;
            let entry = copy_picker_entry(&self.threads[i].1);
            let ghost before = out@;
            out.push((id, entry));
            proof {
                lemma_threads_view(out@);
                lemma_threads_view(self.threads@);
                assert(out@ == before.push((id, entry)));
                assert(before.len() == i);
                assert(out@[i as int] == (id, entry));
                assert(out@[i as int].1@ == entry@);
                assert(threads_view(self.threads@)[i as int] == (id, self.threads@[i as int].1@));
                assert(threads_view(out@)[i as int] == (id, entry@));
                assert(threads_view(out@) =~= threads_view(self.threads@).take(i + 1));
            }
            i = i + 1;
        }
        assert(threads_view(self.threads@).take(i as int) =~= threads_view(self.threads@));
        out
    }

    fn find(&self, id: ThreadId) -> (r: Option<usize>)
        ensures
            r matches Some(k) ==> thread_position(self@, id) == Some(k as int),
            r is None ==> thread_position(self@, id) is None,
            r matches Some(k) ==> k < self@.len() && self@[k as int].0 == id,
    {
        let ghost t = self@;
        proof {
            lemma_threads_view(self.threads@);
        }
        let mut i: usize = 0;
        while i < self.threads.len()
            invariant
                i <= self.threads@.len(),
                t == threads_view(self.threads@),
                t.len() == self.threads@.len(),
                forall|j: int| 0 <= j < i ==> t[j].0 != id,
            decreases self.threads@.len() - i,
        {
            if self.threads[i].0 == id {
                proof {
                    lemma_thread_position_skip(t, id, i as int);
                    assert(t.subrange(i as int, t.len() as int)[0].0 == id);
                }
                return Some(i);
            }
            i = i + 1;
        }
        proof {
            lemma_thread_position_skip(t, id, i as int);
        }
        None
    }

    /// The entry of a thread.
    pub fn get(&self, id: ThreadId) -> (r: Option<AgentPickerThreadEntry>)
        ensures
            match thread_position(self@, id) {
                Some(k) => r is Some && r->0@ == self@[k].1,
                None => r is None,
            },
    {
        proof {
            lemma_thread_position(self@, id);
            lemma_threads_view(self.threads@);
        }
        match self.find(id) {
            Some(i) => {
                let e = copy_picker_entry(&self.threads[i].1);
                assert(self@[i as int].1 == self.threads@[i as int].1@);
                Some(e)
            },
            None => None,
        }
    }

    fn update_at(&mut self, i: usize, entry: AgentPickerThreadEntry)
        requires
            i < old(self)@.len(),
        ensures
            final(self)@ == old(self)@.update(i as int, (old(self)@[i as int].0, entry@)),
            final(self).show_completed == old(self).show_completed,
            final(self).monitor@ == old(self).monitor@,
            final(self).parent_owned@ == old(self).parent_owned@,
            final(self).picker_subtitle@ == old(self).picker_subtitle@,
            final(self).pending_picker_refresh == old(self).pending_picker_refresh,
    {
        proof {
            lemma_threads_view(self.threads@);
        }
        let id = self.threads[i].0;
        self.threads.set(i, (id, entry));
        proof {
            lemma_threads_view(self.threads@);
        }
        assert(threads_view(self.threads@) =~= threads_view(old(self).threads@).update(
            i as int,
            (id, entry@),
        ));
    }

    /// Adds a thread, or renames an existing one and sets whether it is closed; the
    /// spawn order is kept.
    pub fn upsert(
        &mut self,
        thread_id: ThreadId,
        agent_nickname: Option<String>,
        agent_role: Option<String>,
        is_closed: bool,
    )
        ensures
            final(self)@ == nav_upsert(
                old(self)@,
                thread_id,
                opt_text(agent_nickname),
                opt_text(agent_role),
                is_closed,
            ),
            final(self).show_completed == old(self).show_completed,
            final(self).monitor@ == old(self).monitor@,
            final(self).parent_owned@ == old(self).parent_owned@,
            final(self).picker_subtitle@ == old(self).picker_subtitle@,
            final(self).pending_picker_refresh == old(self).pending_picker_refresh,
    {
        proof {
            lemma_thread_position(self@, thread_id);
            lemma_threads_view(self.threads@);
        }
        match self.find(thread_id) {
            Some(i) => {
                proof {
                    assert(self@[i as int].1 == self.threads@[i as int].1@);
                }
                let old_entry = &self.threads[i].1;
                let entry = AgentPickerThreadEntry {
                    agent_nickname,
                    agent_role,
                    agent_path: copy_opt(&old_entry.agent_path),
                    is_running: old_entry.is_running,
                    is_closed,
                };
                self.update_at(i, entry);
            },
            None => {
                let entry = AgentPickerThreadEntry {
                    agent_nickname,
                    agent_role,
                    agent_path: None,
                    is_running: false,
                    is_closed,
                };
                self.threads.push((thread_id, entry));
                assert(threads_view(self.threads@) =~= threads_view(old(self).threads@).push(
                    (thread_id, entry@),
                ));
            },
        }
    }

    /// Sets the agent path of a known thread.
    pub fn set_agent_path(&mut self, thread_id: ThreadId, agent_path: Option<String>)
        ensures
            final(self)@ == nav_set_path(old(self)@, thread_id, opt_text(agent_path)),
            final(self).show_completed == old(self).show_completed,
            final(self).monitor@ == old(self).monitor@,
            final(self).parent_owned@ == old(self).parent_owned@,
            final(self).picker_subtitle@ == old(self).picker_subtitle@,
            final(self).pending_picker_refresh == old(self).pending_picker_refresh,
    {
        proof {
            lemma_thread_position(self@, thread_id);
            lemma_threads_view(self.threads@);
        }
        if let Some(i) = self.find(thread_id) {
            proof {
                assert(self@[i as int].1 == self.threads@[i as int].1@);
            }
            let mut entry = copy_picker_entry(&self.threads[i].1);
            entry.agent_path = agent_path;
            self.update_at(i, entry);
        }
    }

    /// Sets whether a known thread is running.
    pub fn set_running(&mut self, thread_id: ThreadId, is_running: bool)
        ensures
            final(self)@ == nav_set_running(old(self)@, thread_id, is_running),
            final(self).show_completed == old(self).show_completed,
            final(self).monitor@ == old(self).monitor@,
            final(self).parent_owned@ == old(self).parent_owned@,
            final(self).picker_subtitle@ == old(self).picker_subtitle@,
            final(self).pending_picker_refresh == old(self).pending_picker_refresh,
    {
        proof {
            lemma_thread_position(self@, thread_id);
            lemma_threads_view(self.threads@);
        }
        if let Some(i) = self.find(thread_id) {
            proof {
                assert(self@[i as int].1 == self.threads@[i as int].1@);
            }
            let mut entry = copy_picker_entry(&self.threads[i].1);
            entry.is_running = is_running;
            self.update_at(i, entry);
        }
    }

    /// Starts a picker refresh for `root` under `request_id`, unless one for `root` is
    /// already in flight; gives the request id of the refresh it started.
    pub fn begin_picker_refresh(&mut self, root: ThreadId, request_id: u128) -> (r: Option<u128>)
        ensures
            (old(self).pending_picker_refresh matches Some(p) && p.0 == root) ==> {
                &&& r is None
                &&& final(self).pending_picker_refresh == old(self).pending_picker_refresh
            },
            !(old(self).pending_picker_refresh matches Some(p) && p.0 == root) ==> {
                &&& r == Some(request_id)
                &&& final(self).pending_picker_refresh == Some((root, request_id))
            },
            final(self)@ == old(self)@,
            final(self).show_completed == old(self).show_completed,
            final(self).monitor@ == old(self).monitor@,
            final(self).parent_owned@ == old(self).parent_owned@,
            final(self).picker_subtitle@ == old(self).picker_subtitle@,
    {
        if let Some((pending_root, _)) = self.pending_picker_refresh {
            if pending_root == root {
                return None;
            }
        }
        self.pending_picker_refresh = Some((root, request_id));
        Some(request_id)
    }

    /// Ends the picker refresh for `root` with `request_id`; reports whether it was the
    /// one in flight, which only then is no longer pending.
    pub fn finish_picker_refresh(&mut self, root: ThreadId, request_id: u128) -> (r: bool)
        ensures
            r == (old(self).pending_picker_refresh == Some((root, request_id))),
            final(self).pending_picker_refresh == if r {
                None
            } else {
                old(self).pending_picker_refresh
            },
            final(self)@ == old(self)@,
            final(self).show_completed == old(self).show_completed,
            final(self).monitor@ == old(self).monitor@,
            final(self).parent_owned@ == old(self).parent_owned@,
            final(self).picker_subtitle@ == old(self).picker_subtitle@,
    {
        let current = match self.pending_picker_refresh {
            Some((pending_root, pending_id)) => pending_root == root && pending_id == request_id,
            None => false,
        };
        if current {
            self.pending_picker_refresh = None;
        }
        current
    }

    /// Records that input to a thread is owned by its parent session.
    pub fn mark_parent_owned(&mut self, thread_id: ThreadId)
        ensures
            final(self)@ == old(self)@,
            final(self).parent_owned@ == (if old(self).parent_owned@.contains(thread_id) {
                old(self).parent_owned@
            } else {
                old(self).parent_owned@.push(thread_id)
            }),
            final(self).show_completed == old(self).show_completed,
            final(self).monitor@ == old(self).monitor@,
            final(self).picker_subtitle@ == old(self).picker_subtitle@,
            final(self).pending_picker_refresh == old(self).pending_picker_refresh,
    {
        if !crate::app::contains_id(&self.parent_owned, thread_id) {
            self.parent_owned.push(thread_id);
        }
    }
}

proof fn lemma_thread_position_skip(t: Seq<(ThreadId, PickerEntryView)>, id: ThreadId, i: int)
    requires
        0 <= i <= t.len(),
        forall|j: int| 0 <= j < i ==> t[j].0 != id,
    ensures
        thread_position(t, id) == match thread_position(t.subrange(i, t.len() as int), id) {
            Some(k) => Some(k + i),
            None => None::<int>,
        },
    decreases i,
{
    if i == 0 {
        assert(t.subrange(0, t.len() as int) == t);
        match thread_position(t, id) {
            Some(k) => {},
            None => {},
        }
    } else {
        lemma_thread_position_skip(t.drop_first(), id, i - 1);
        assert(t.drop_first().subrange(i - 1, t.drop_first().len() as int) == t.subrange(
            i,
            t.len() as int,
        ));
    }
}

/// What `thread_position` finds.
pub proof fn lemma_thread_position(t: Seq<(ThreadId, PickerEntryView)>, id: ThreadId)
    ensures
        thread_position(t, id) matches Some(k) ==> 0 <= k < t.len() && t[k].0 == id && forall|j: int|
            0 <= j < k ==> t[j].0 != id,
        thread_position(t, id) is None ==> forall|j: int| 0 <= j < t.len() ==> t[j].0 != id,
    decreases t.len(),
{
    if t.len() > 0 {
        lemma_thread_position(t.drop_first(), id);
        if t[0].0 != id {
            assert forall|j: int| 0 < j < t.len() implies t[j] == t.drop_first()[j - 1] by {}
        }
    }
}

/// An optional text, trimmed, and absent when that leaves nothing.
pub fn nonblank_text(o: Option<&str>) -> (r: Option<String>)
    ensures
        opt_text(r) == nonblank(match o {
            Some(s) => Some(s@),
            None => None,
        }),
{
    match o {
        Some(s) => {
            let chars = chars_of(s);
            let (a, b) = trim_bounds(&chars);
            if a == b {
                None
            } else {
                Some(string_from_range(&chars, a, b))
            }
        },
        None => None,
    }
}

/// The picker name of an agent: `Main [default]` for the primary thread, otherwise the
/// nickname and the role in brackets as far as they are given.
pub fn format_agent_picker_item_name(
    agent_nickname: Option<&str>,
    agent_role: Option<&str>,
    is_primary: bool,
) -> (r: String)
    ensures
        r@ == item_name_text(
            match agent_nickname {
                Some(s) => Some(s@),
                None => None,
            },
            match agent_role {
                Some(s) => Some(s@),
                None => None,
            },
            is_primary,
        ),
{
    if is_primary {
        return "Main [default]".to_owned();
    }
    let nickname = nonblank_text(agent_nickname);
    let role = nonblank_text(agent_role);
    match nickname {
        Some(n) => match role {
            Some(r) => {
                let mut out = n;
                out.append(" [");
                out.append(r.as_str());
                out.append("]");
                out
            },
            None => n,
        },
        None => match role {
            Some(r) => {
                let mut out = "[".to_owned();
                out.append(r.as_str());
                out.append("]");
                out
            },
            None => "Agent".to_owned(),
        },
    }
}

} // verus!
