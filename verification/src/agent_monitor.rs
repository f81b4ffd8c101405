//! Compact live state for rows of the `/subagents` picker and the active-agent panel.
//!
//! Token totals are authoritative cumulative snapshots, and activity text is limited to
//! safe item classes rather than command text or tool arguments.

use std::collections::HashMap;
use std::collections::hash_map::DefaultHasher;
use std::hash::Hasher;
use vstd::prelude::*;
use vstd::string::StringExecFns;
use vstd::std_specs::hash::DefaultHasherAdditionalSpecFns;
use crate::protocol::ServerNotification;
use crate::protocol::Thread;
use crate::protocol::ThreadActiveFlag;
use crate::protocol::ThreadItem;
use crate::protocol::ThreadItemKind;
use crate::protocol::ThreadStatus;
use crate::protocol::TurnStatus;
use crate::text::chars_of;
use crate::text::is_control;
use crate::text::is_control_char;
use crate::text::push_char;
use crate::text::trim_bounds;
use crate::text::trimmed;
use crate::thread_id::ThreadId;

verus! {

/// Longest label kept, in characters.
pub const MAX_LABEL_CHARS: usize = 96;

/// Most threads that the monitor keeps state for.
pub const MAX_MONITORED_THREADS: usize = 1000;

/// Explicit status shown for an agent.
#[derive(Clone, Copy, Debug, PartialEq, Eq, Structural)]
pub enum AgentMonitorStatus {
    Running,
    Waiting,
    Idle,
    Completed,
    Interrupted,
    Failed,
    SystemError,
    Closed,
    Unknown,
}

/// The text shown for a status.
pub open spec fn status_label_text(s: AgentMonitorStatus) -> Seq<char> {
    match s {
        AgentMonitorStatus::Running => "Running"@,
        AgentMonitorStatus::Waiting => "Waiting"@,
        AgentMonitorStatus::Idle => "Idle"@,
        AgentMonitorStatus::Completed => "Completed"@,
        AgentMonitorStatus::Interrupted => "Interrupted"@,
        AgentMonitorStatus::Failed => "Failed"@,
        AgentMonitorStatus::SystemError => "Error"@,
        AgentMonitorStatus::Closed => "Closed"@,
        AgentMonitorStatus::Unknown => "Unknown"@,
    }
}

impl AgentMonitorStatus {
    /// The text shown for the status.
    pub fn label(self) -> (r: &'static str)
        ensures
            r@ == status_label_text(self),
    {
        match self {
            AgentMonitorStatus::Running => "Running",
            AgentMonitorStatus::Waiting => "Waiting",
            AgentMonitorStatus::Idle => "Idle",
            AgentMonitorStatus::Completed => "Completed",
            AgentMonitorStatus::Interrupted => "Interrupted",
            AgentMonitorStatus::Failed => "Failed",
            AgentMonitorStatus::SystemError => "Error",
            AgentMonitorStatus::Closed => "Closed",
            AgentMonitorStatus::Unknown => "Unknown",
        }
    }
}

/// How the latest finished turn of an agent ended.
#[derive(Clone, Copy, Debug, PartialEq, Eq, Structural)]
pub enum AgentTurnResult {
    Completed,
    Interrupted,
    Failed,
}

/// What the picker and the panel show for one agent.
#[derive(Clone, Debug)]
pub struct AgentMonitorDescription {
    pub status: AgentMonitorStatus,
    pub latest_turn_result: Option<AgentTurnResult>,
    pub total_tokens: Option<i64>,
    pub activity: Option<String>,
    pub model: Option<String>,
}

/// Stored state of one thread.
#[derive(Debug)]
pub struct AgentMonitorEntry {
    pub status: Option<AgentMonitorStatus>,
    pub latest_turn_result: Option<AgentTurnResult>,
    pub total_tokens: Option<i64>,
    pub activity: Option<String>,
    pub model: Option<String>,
    pub active_turn: Option<u64>,
    pub active_item: Option<u64>,
    pub observed_live: bool,
}

/// The mathematical value of an entry: its strings as character sequences.
#[verifier::ext_equal]
pub struct MonitorEntryView {
    pub status: Option<AgentMonitorStatus>,
    pub latest_turn_result: Option<AgentTurnResult>,
    pub total_tokens: Option<i64>,
    pub activity: Option<Seq<char>>,
    pub model: Option<Seq<char>>,
    pub active_turn: Option<u64>,
    pub active_item: Option<u64>,
    pub observed_live: bool,
}

/// An optional string as an optional character sequence.
pub open spec fn opt_text(o: Option<String>) -> Option<Seq<char>> {
    match o {
        Some(s) => Some(s@),
        None => None,
    }
}

impl View for AgentMonitorEntry {
    type V = MonitorEntryView;

    open spec fn view(&self) -> MonitorEntryView {
        MonitorEntryView {
            status: self.status,
            latest_turn_result: self.latest_turn_result,
            total_tokens: self.total_tokens,
            activity: opt_text(self.activity),
            model: opt_text(self.model),
            active_turn: self.active_turn,
            active_item: self.active_item,
            observed_live: self.observed_live,
        }
    }
}

/// The state of a thread that nothing has been learnt of.
pub open spec fn empty_entry() -> MonitorEntryView {
    MonitorEntryView {
        status: None,
        latest_turn_result: None,
        total_tokens: None,
        activity: None,
        model: None,
        active_turn: None,
        active_item: None,
        observed_live: false,
    }
}

/// The thread is active and waits on an approval or on user input.
pub open spec fn waits_on_user(flags: Seq<ThreadActiveFlag>) -> bool {
    flags.contains(ThreadActiveFlag::WaitingOnApproval) || flags.contains(
        ThreadActiveFlag::WaitingOnUserInput,
    )
}

/// The displayed status for a server thread status.
pub open spec fn status_of_thread(status: ThreadStatus) -> AgentMonitorStatus {
    match status {
        ThreadStatus::Active { active_flags } => if waits_on_user(active_flags@) {
            AgentMonitorStatus::Waiting
        } else {
            AgentMonitorStatus::Running
        },
        ThreadStatus::Idle => AgentMonitorStatus::Idle,
        ThreadStatus::SystemError => AgentMonitorStatus::SystemError,
        ThreadStatus::NotLoaded => AgentMonitorStatus::Closed,
    }
}

/// Thread states in which an earlier turn result no longer describes the agent.
pub open spec fn clears_turn_result(status: ThreadStatus) -> bool {
    status is Active || status is SystemError
}

/// The result of a finished turn; none while it is in progress.
pub open spec fn turn_result_of(status: TurnStatus) -> Option<AgentTurnResult> {
    match status {
        TurnStatus::Completed => Some(AgentTurnResult::Completed),
        TurnStatus::Interrupted => Some(AgentTurnResult::Interrupted),
        TurnStatus::Failed => Some(AgentTurnResult::Failed),
        TurnStatus::InProgress => None,
    }
}

/// The displayed status for a turn result.
pub open spec fn status_of_result(result: AgentTurnResult) -> AgentMonitorStatus {
    match result {
        AgentTurnResult::Completed => AgentMonitorStatus::Completed,
        AgentTurnResult::Interrupted => AgentMonitorStatus::Interrupted,
        AgentTurnResult::Failed => AgentMonitorStatus::Failed,
    }
}

/// A label: trimmed, absent when empty, cut to `MAX_LABEL_CHARS` characters, with each
/// control character replaced by a space.
pub open spec fn bounded_label_text(s: Seq<char>) -> Option<Seq<char>> {
    let t = trimmed(s);
    if t.len() == 0 {
        None
    } else {
        let kept = if t.len() <= MAX_LABEL_CHARS {
            t
        } else {
            t.take(MAX_LABEL_CHARS as int)
        };
        Some(kept.map_values(|c: char| if is_control_char(c) { ' ' } else { c }))
    }
}

/// The compact id of a turn or item: the `DefaultHasher` digest of the text as `str`
/// hashing feeds it (its UTF-8 bytes, then the byte `0xff`).
pub open spec fn bounded_id_of(s: Seq<char>) -> u64 {
    DefaultHasher::spec_finish(seq![vstd::utf8::encode_utf8(s), seq![0xffu8]])
}

/// The label `Using <name>`, or `Using tool` when that label would be empty.
pub open spec fn using_label_text(name: Seq<char>) -> Seq<char> {
    match bounded_label_text("Using "@ + name) {
        Some(l) => l,
        None => "Using tool"@,
    }
}

/// The safe activity text for an item: its class, or for a tool call the tool's name.
pub open spec fn activity_text(item: ThreadItem) -> Seq<char> {
    match item.kind {
        ThreadItemKind::UserMessage => "Reading instructions"@,
        ThreadItemKind::HookPrompt => "Running hook"@,
        ThreadItemKind::AgentMessage => "Writing response"@,
        ThreadItemKind::FunctionCallOutput => "Processing tool result"@,
        ThreadItemKind::Plan => "Updating plan"@,
        ThreadItemKind::Reasoning => "Reasoning"@,
        ThreadItemKind::CommandExecution { .. } => "Running command"@,
        ThreadItemKind::FileChange => "Editing files"@,
        ThreadItemKind::McpToolCall { server, tool } => using_label_text(
            server@ + "/"@ + tool@,
        ),
        ThreadItemKind::DynamicToolCall { namespace, tool } => using_label_text(
            match namespace {
                Some(ns) => ns@ + "/"@ + tool@,
                None => tool@,
            },
        ),
        ThreadItemKind::CollabAgentToolCall => "Coordinating agents"@,
        ThreadItemKind::SubAgentActivity => "Coordinating agents"@,
        ThreadItemKind::WebSearch => "Searching the web"@,
        ThreadItemKind::ImageView => "Viewing image"@,
        ThreadItemKind::Sleep => "Waiting"@,
        ThreadItemKind::ImageGeneration => "Generating image"@,
        ThreadItemKind::EnteredReviewMode => "Reviewing changes"@,
        ThreadItemKind::ExitedReviewMode => "Finishing review"@,
        ThreadItemKind::ContextCompaction => "Compacting context"@,
    }
}

/// A turn completion that belongs to another turn than the one in progress.
pub open spec fn is_stale_completion(e: MonitorEntryView, turn_id: Seq<char>) -> bool {
    e.active_turn is Some && e.active_turn->0 != bounded_id_of(turn_id)
}

/// The entry after one notification.
pub open spec fn observed_entry(e: MonitorEntryView, n: ServerNotification) -> MonitorEntryView {
    match n {
        ServerNotification::ThreadStarted { thread } => MonitorEntryView {
            observed_live: true,
            status: Some(status_of_thread(thread.status)),
            model: match thread.model {
                Some(m) => bounded_label_text(m@),
                None => e.model,
            },
            ..e
        },
        ServerNotification::ThreadStatusChanged { status } => MonitorEntryView {
            observed_live: true,
            status: Some(status_of_thread(status)),
            latest_turn_result: if clears_turn_result(status) {
                None
            } else {
                e.latest_turn_result
            },
            ..e
        },
        ServerNotification::ThreadClosed | ServerNotification::ThreadArchived
        | ServerNotification::ThreadDeleted => MonitorEntryView {
            observed_live: true,
            status: Some(AgentMonitorStatus::Closed),
            activity: None,
            active_item: None,
            ..e
        },
        ServerNotification::ThreadSettingsUpdated { model } => MonitorEntryView {
            observed_live: true,
            model: bounded_label_text(model@),
            ..e
        },
        ServerNotification::ModelRerouted { to_model } => MonitorEntryView {
            observed_live: true,
            model: bounded_label_text(to_model@),
            ..e
        },
        ServerNotification::ModelSafetyBufferingUpdated { model } => MonitorEntryView {
            observed_live: true,
            model: bounded_label_text(model@),
            ..e
        },
        ServerNotification::TurnStarted { turn } => MonitorEntryView {
            observed_live: true,
            status: Some(AgentMonitorStatus::Running),
            latest_turn_result: None,
            activity: None,
            active_turn: Some(bounded_id_of(turn.id@)),
            active_item: None,
            ..e
        },
        ServerNotification::TurnCompleted { turn } => if is_stale_completion(e, turn.id@) {
            e
        } else {
            MonitorEntryView {
                observed_live: true,
                latest_turn_result: turn_result_of(turn.status),
                status: match turn_result_of(turn.status) {
                    Some(r) => Some(status_of_result(r)),
                    None => None,
                },
                active_turn: None,
                active_item: None,
                activity: None,
                ..e
            }
        },
        ServerNotification::ThreadTokenUsageUpdated { total_tokens } => MonitorEntryView {
            observed_live: true,
            total_tokens: Some(total_tokens),
            ..e
        },
        ServerNotification::ItemStarted { item } => MonitorEntryView {
            observed_live: true,
            activity: Some(activity_text(item)),
            active_item: Some(bounded_id_of(item.id@)),
            ..e
        },
        ServerNotification::ItemCompleted { item } => if e.active_item == Some(
            bounded_id_of(item.id@),
        ) {
            MonitorEntryView { observed_live: true, activity: None, active_item: None, ..e }
        } else {
            MonitorEntryView { observed_live: true, ..e }
        },
        ServerNotification::Other => e,
    }
}

/// The entry after a listed thread seeds it. Live observations win over the listing,
/// except that a missing model is filled in.
pub open spec fn seeded_entry(e: MonitorEntryView, thread: Thread) -> MonitorEntryView {
    let last_result = if thread.turns@.len() > 0 {
        turn_result_of(thread.turns@.last().status)
    } else {
        None
    };
    let e1 = if e.observed_live {
        e
    } else if clears_turn_result(thread.status) {
        MonitorEntryView {
            status: Some(status_of_thread(thread.status)),
            latest_turn_result: None,
            ..e
        }
    } else if last_result is Some {
        MonitorEntryView {
            status: Some(status_of_result(last_result->0)),
            latest_turn_result: last_result,
            ..e
        }
    } else {
        MonitorEntryView { status: Some(status_of_thread(thread.status)), ..e }
    };
    if e1.model is None && thread.model is Some {
        MonitorEntryView { model: bounded_label_text(thread.model->0@), ..e1 }
    } else {
        e1
    }
}

/// The status shown for a thread: the latest turn result wins, then the explicit status,
/// then the fallbacks.
pub open spec fn described_status(
    e: Option<MonitorEntryView>,
    fallback_running: bool,
    fallback_closed: bool,
) -> AgentMonitorStatus {
    if e is Some && e->0.latest_turn_result is Some {
        status_of_result(e->0.latest_turn_result->0)
    } else if e is Some && e->0.status is Some {
        e->0.status->0
    } else if fallback_closed {
        AgentMonitorStatus::Closed
    } else if fallback_running {
        AgentMonitorStatus::Running
    } else {
        AgentMonitorStatus::Unknown
    }
}

/// The thread finished its latest turn successfully.
pub open spec fn completed_successfully(e: MonitorEntryView) -> bool {
    e.latest_turn_result == Some(AgentTurnResult::Completed) || e.status == Some(
        AgentMonitorStatus::Completed,
    )
}

/// The value of a description.
#[verifier::ext_equal]
pub struct DescriptionView {
    pub status: AgentMonitorStatus,
    pub latest_turn_result: Option<AgentTurnResult>,
    pub total_tokens: Option<i64>,
    pub activity: Option<Seq<char>>,
    pub model: Option<Seq<char>>,
}

/// The value of a description.
pub open spec fn description_view(d: AgentMonitorDescription) -> DescriptionView {
    DescriptionView {
        status: d.status,
        latest_turn_result: d.latest_turn_result,
        total_tokens: d.total_tokens,
        activity: opt_text(d.activity),
        model: opt_text(d.model),
    }
}

/// What is shown for a thread given the monitor's entries and the fallbacks.
pub open spec fn description_of(
    entries: Map<u128, MonitorEntryView>,
    thread_id: ThreadId,
    fallback_running: bool,
    fallback_closed: bool,
) -> DescriptionView {
    let e = if entries.contains_key(thread_id.uuid) {
        Some(entries[thread_id.uuid])
    } else {
        None
    };
    DescriptionView {
        status: described_status(e, fallback_running, fallback_closed),
        latest_turn_result: match e {
            Some(x) => x.latest_turn_result,
            None => None,
        },
        total_tokens: match e {
            Some(x) => x.total_tokens,
            None => None,
        },
        activity: match e {
            Some(x) => x.activity,
            None => None,
        },
        model: match e {
            Some(x) => x.model,
            None => None,
        },
    }
}

/// An entry whose status says Completed also records a completed latest turn.
pub open spec fn entry_consistent(e: MonitorEntryView) -> bool {
    e.status == Some(AgentMonitorStatus::Completed) ==> e.latest_turn_result == Some(
        AgentTurnResult::Completed,
    )
}

/// Every entry of the monitor is consistent.
pub open spec fn monitor_consistent(m: Map<u128, MonitorEntryView>) -> bool {
    forall|k: u128| #[trigger] m.contains_key(k) ==> entry_consistent(m[k])
}

/// Per-thread monitor state, bounded to `MAX_MONITORED_THREADS` threads.
#[derive(Debug)]
pub struct AgentMonitorState {
    entries: HashMap<u128, AgentMonitorEntry>,
}

impl View for AgentMonitorState {
    type V = Map<u128, MonitorEntryView>;

    closed spec fn view(&self) -> Map<u128, MonitorEntryView> {
        self.entries@.map_values(|e: AgentMonitorEntry| e@)
    }
}

/// The monitor is full and does not know the thread, so it ignores it.
pub open spec fn monitor_refuses(m: Map<u128, MonitorEntryView>, thread_id: ThreadId) -> bool {
    m.len() >= MAX_MONITORED_THREADS && !m.contains_key(thread_id.uuid)
}

/// The stored entry of a thread, or the empty one.
pub open spec fn monitor_entry(m: Map<u128, MonitorEntryView>, thread_id: ThreadId) -> MonitorEntryView {
    if m.contains_key(thread_id.uuid) {
        m[thread_id.uuid]
    } else {
        empty_entry()
    }
}

/// The entries after a thread listing seeds one thread.
pub open spec fn monitor_seeded(
    m: Map<u128, MonitorEntryView>,
    thread_id: ThreadId,
    thread: Thread,
) -> Map<u128, MonitorEntryView> {
    if monitor_refuses(m, thread_id) {
        m
    } else {
        m.insert(thread_id.uuid, seeded_entry(monitor_entry(m, thread_id), thread))
    }
}

/// The entries after one notification for a thread.
pub open spec fn monitor_observed(
    m: Map<u128, MonitorEntryView>,
    thread_id: ThreadId,
    n: ServerNotification,
) -> Map<u128, MonitorEntryView> {
    if monitor_refuses(m, thread_id) {
        m
    } else {
        m.insert(thread_id.uuid, observed_entry(monitor_entry(m, thread_id), n))
    }
}

impl AgentMonitorState {

    proof fn lemma_view_insert(
        old_entries: Map<u128, AgentMonitorEntry>,
        k: u128,
        e: AgentMonitorEntry,
    )
        ensures
            old_entries.insert(k, e).map_values(|x: AgentMonitorEntry| x@) == old_entries.map_values(
                |x: AgentMonitorEntry| x@,
            ).insert(k, e@),
            old_entries.remove(k).insert(k, e) == old_entries.insert(k, e),
    {
        assert(old_entries.insert(k, e).map_values(|x: AgentMonitorEntry| x@) =~= old_entries.map_values(
            |x: AgentMonitorEntry| x@,
        ).insert(k, e@));
        assert(old_entries.remove(k).insert(k, e) =~= old_entries.insert(k, e));
    }

    proof fn lemma_view_dom(&self)
        ensures
            self@.dom() == self.entries@.dom(),
            self@.len() == self.entries@.len(),
            forall|k: u128| #[trigger] self@.contains_key(k) ==> self@[k] == self.entries@[k]@,
    {
        assert(self@.dom() =~= self.entries@.dom());
    }

    /// Takes the entry of a thread out of the map, or a fresh one.
    fn take_entry(&mut self, key: u128) -> (e: AgentMonitorEntry)
        ensures
            e@ == (if old(self)@.contains_key(key) {
                old(self)@[key]
            } else {
                empty_entry()
            }),
            final(self).entries@ == old(self).entries@.remove(key),
    {
        match self.entries.remove(&key) {
            Some(e) => e,
            None => new_entry(),
        }
    }

    /// Puts an entry back.
    fn put_entry(&mut self, key: u128, e: AgentMonitorEntry, Ghost(base): Ghost<Map<u128, AgentMonitorEntry>>)
        requires
            old(self).entries@ == base.remove(key),
        ensures
            final(self)@ == base.map_values(|x: AgentMonitorEntry| x@).insert(key, e@),
    {
        self.entries.insert(key, e);
        proof {
            Self::lemma_view_insert(base, key, e);
        }
    }

    /// Seeds a thread from a server listing. Live observations win over the listing, but
    /// a missing model is filled in.
    pub fn seed(&mut self, thread_id: ThreadId, thread: &Thread)
        ensures
            final(self)@ == monitor_seeded(old(self)@, thread_id, *thread),
            monitor_consistent(old(self)@) ==> monitor_consistent(final(self)@),
    {
        proof {
            if monitor_consistent(old(self)@) {
                lemma_seed_keeps_consistency(old(self)@, thread_id, *thread);
            }
        }
        let key = thread_id.uuid;
        proof {
            self.lemma_view_dom();
        }
        if self.entries.len() >= MAX_MONITORED_THREADS && !self.entries.contains_key(&key) {
            return;
        }
        let ghost base = self.entries@;
        let mut entry = self.take_entry(key);
        if !entry.observed_live {
            entry.status = Some(status_from_thread(&thread.status));
            let clears = match &thread.status {
                ThreadStatus::Active { .. } | ThreadStatus::SystemError => true,
                _ => false,
            };
            if clears {
                entry.latest_turn_result = None;
            } else {
                let n = thread.turns.len();
                if n > 0 {
                    if let Some(result) = turn_result(&thread.turns[n - 1].status) {
                        entry.latest_turn_result = Some(result);
                        entry.status = Some(status_from_result(result));
                    }
                }
            }
        }
        if entry.model.is_none() {
            if let Some(model) = &thread.model {
                entry.model = bounded_label(model.as_str());
            }
        }
        proof {
            assert(entry@ == seeded_entry(
                if base.contains_key(key) { base[key]@ } else { empty_entry() },
                *thread,
            ));
        }
        self.put_entry(key, entry, Ghost(base));
    }

    /// Observes one already-routed notification and reports whether display state changed.
    pub fn observe(&mut self, thread_id: ThreadId, notification: &ServerNotification) -> (changed: bool)
        ensures
            final(self)@ == monitor_observed(old(self)@, thread_id, *notification),
            changed == (!monitor_refuses(old(self)@, thread_id) && monitor_entry(old(self)@, thread_id)
                != observed_entry(monitor_entry(old(self)@, thread_id), *notification)),
            monitor_consistent(old(self)@) ==> monitor_consistent(final(self)@),
    {
        proof {
            if monitor_consistent(old(self)@) {
                lemma_observe_keeps_consistency(old(self)@, thread_id, *notification);
            }
        }
        let key = thread_id.uuid;
        proof {
            self.lemma_view_dom();
        }
        if self.entries.len() >= MAX_MONITORED_THREADS && !self.entries.contains_key(&key) {
            return false;
        }
        let ghost base = self.entries@;
        let mut entry = self.take_entry(key);
        let before = copy_entry(&entry);
        let ghost b = entry@;
        match notification {
            ServerNotification::ThreadStarted { thread } => {
                entry.observed_live = true;
                entry.status = Some(status_from_thread(&thread.status));
                if let Some(model) = &thread.model {
                    entry.model = bounded_label(model.as_str());
                }
            },
            ServerNotification::ThreadStatusChanged { status } => {
                entry.observed_live = true;
                entry.status = Some(status_from_thread(status));
                let clears = match status {
                    ThreadStatus::Active { .. } | ThreadStatus::SystemError => true,
                    _ => false,
                };
                if clears {
                    entry.latest_turn_result = None;
                }
            },
            ServerNotification::ThreadClosed
            | ServerNotification::ThreadArchived
            | ServerNotification::ThreadDeleted => {
                entry.observed_live = true;
                entry.status = Some(AgentMonitorStatus::Closed);
                entry.activity = None;
                entry.active_item = None;
            },
            ServerNotification::ThreadSettingsUpdated { model } => {
                entry.observed_live = true;
                entry.model = bounded_label(model.as_str());
            },
            ServerNotification::ModelRerouted { to_model } => {
                entry.observed_live = true;
                entry.model = bounded_label(to_model.as_str());
            },
            ServerNotification::ModelSafetyBufferingUpdated { model } => {
                entry.observed_live = true;
                entry.model = bounded_label(model.as_str());
            },
            ServerNotification::TurnStarted { turn } => {
                entry.observed_live = true;
                entry.status = Some(AgentMonitorStatus::Running);
                entry.latest_turn_result = None;
                entry.activity = None;
                entry.active_turn = Some(bounded_id(turn.id.as_str()));
                entry.active_item = None;
            },
            ServerNotification::TurnCompleted { turn } => {
                let turn_id = bounded_id(turn.id.as_str());
                let stale = match entry.active_turn {
                    Some(active_turn) => active_turn != turn_id,
                    None => false,
                };
                if stale {
                    self.put_entry(key, entry, Ghost(base));
                    return false;
                }
                entry.observed_live = true;
                entry.latest_turn_result = turn_result(&turn.status);
                entry.status = match entry.latest_turn_result {
                    Some(r) => Some(status_from_result(r)),
                    None => None,
                };
                entry.active_turn = None;
                entry.active_item = None;
                entry.activity = None;
            },
            ServerNotification::ThreadTokenUsageUpdated { total_tokens } => {
                entry.observed_live = true;
                // A cumulative thread snapshot: replacing it avoids double counting.
                entry.total_tokens = Some(*total_tokens);
            },
            ServerNotification::ItemStarted { item } => {
                entry.observed_live = true;
                entry.activity = Some(activity_label(item));
                entry.active_item = Some(bounded_id(item.id()));
            },
            ServerNotification::ItemCompleted { item } => {
                entry.observed_live = true;
                let matches_active = match entry.active_item {
                    Some(active_item) => active_item == bounded_id(item.id()),
                    None => false,
                };
                if matches_active {
                    entry.activity = None;
                    entry.active_item = None;
                }
            },
            ServerNotification::Other => {},
        }
        let changed = !same_entry(&before, &entry);
        proof {
            assert(entry@ == observed_entry(b, *notification));
        }
        self.put_entry(key, entry, Ghost(base));
        changed
    }

    /// What to show for a thread; the fallbacks apply when nothing is known of it.
    pub fn describe(&self, thread_id: ThreadId, fallback_running: bool, fallback_closed: bool) -> (r: AgentMonitorDescription)
        ensures
            description_view(r) == description_of(self@, thread_id, fallback_running, fallback_closed),
    {
        match self.entries.get(&thread_id.uuid) {
            Some(entry) => {
                let status = if let Some(result) = entry.latest_turn_result {
                    status_from_result(result)
                } else if let Some(status) = entry.status {
                    status
                } else if fallback_closed {
                    AgentMonitorStatus::Closed
                } else if fallback_running {
                    AgentMonitorStatus::Running
                } else {
                    AgentMonitorStatus::Unknown
                };
                AgentMonitorDescription {
                    status,
                    latest_turn_result: entry.latest_turn_result,
                    total_tokens: entry.total_tokens,
                    activity: copy_text(&entry.activity),
                    model: copy_text(&entry.model),
                }
            },
            None => {
                let status = if fallback_closed {
                    AgentMonitorStatus::Closed
                } else if fallback_running {
                    AgentMonitorStatus::Running
                } else {
                    AgentMonitorStatus::Unknown
                };
                AgentMonitorDescription {
                    status,
                    latest_turn_result: None,
                    total_tokens: None,
                    activity: None,
                    model: None,
                }
            },
        }
    }

    /// The thread's latest turn completed successfully, or its status says so.
    pub fn is_successfully_completed(&self, thread_id: ThreadId) -> (r: bool)
        ensures
            r == (self@.contains_key(thread_id.uuid) && completed_successfully(
                self@[thread_id.uuid],
            )),
    {
        match self.entries.get(&thread_id.uuid) {
            Some(entry) => {
                let by_result = match entry.latest_turn_result {
                    Some(AgentTurnResult::Completed) => true,
                    _ => false,
                };
                let by_status = match entry.status {
                    Some(AgentMonitorStatus::Completed) => true,
                    _ => false,
                };
                by_result || by_status
            },
            None => false,
        }
    }

    /// Forgets a thread.
    pub fn remove(&mut self, thread_id: ThreadId)
        ensures
            final(self)@ == old(self)@.remove(thread_id.uuid),
            monitor_consistent(old(self)@) ==> monitor_consistent(final(self)@),
    {
        proof {
            if monitor_consistent(old(self)@) {
                lemma_observe_keeps_consistency(old(self)@, thread_id, ServerNotification::Other);
            }
        }
        let ghost base = self.entries@;
        self.entries.remove(&thread_id.uuid);
        proof {
            assert(self.entries@.map_values(|x: AgentMonitorEntry| x@) =~= base.map_values(
                |x: AgentMonitorEntry| x@,
            ).remove(thread_id.uuid));
        }
    }

    /// Forgets every thread.
    pub fn clear(&mut self)
        ensures
            final(self)@ == Map::<u128, MonitorEntryView>::empty(),
            monitor_consistent(final(self)@),
    {
        self.entries.clear();
        proof {
            assert(self.entries@.map_values(|x: AgentMonitorEntry| x@) =~= Map::<
                u128,
                MonitorEntryView,
            >::empty());
        }
    }
}

impl Default for AgentMonitorState {
    fn default() -> (r: AgentMonitorState)
        ensures
            r@ == Map::<u128, MonitorEntryView>::empty(),
            monitor_consistent(r@),
    {
        let r = AgentMonitorState { entries: HashMap::new() };
        proof {
            assert(r.entries@.map_values(|x: AgentMonitorEntry| x@) =~= Map::<
                u128,
                MonitorEntryView,
            >::empty());
        }
        r
    }
}

/// A fresh entry.
fn new_entry() -> (e: AgentMonitorEntry)
    ensures
        e@ == empty_entry(),
{
    AgentMonitorEntry {
        status: None,
        latest_turn_result: None,
        total_tokens: None,
        activity: None,
        model: None,
        active_turn: None,
        active_item: None,
        observed_live: false,
    }
}

/// A copy of an optional string.
fn copy_text(o: &Option<String>) -> (r: Option<String>)
    ensures
        opt_text(r) == opt_text(*o),
{
    match o {
        Some(s) => Some(s.clone()),
        None => None,
    }
}

/// Two optional strings hold the same text.
fn same_text(a: &Option<String>, b: &Option<String>) -> (r: bool)
    ensures
        r == (opt_text(*a) == opt_text(*b)),
{
    match a {
        Some(x) => match b {
            Some(y) => {
                let same = <String as PartialEq>::eq(x, y);
                proof {
                    if !same {
                        assert(x@ != y@);
                        assert(opt_text(*a)->0 != opt_text(*b)->0);
                    }
                }
                same
            },
            None => false,
        },
        None => b.is_none(),
    }
}

/// A copy of an entry.
fn copy_entry(e: &AgentMonitorEntry) -> (r: AgentMonitorEntry)
    ensures
        r@ == e@,
{
    AgentMonitorEntry {
        status: e.status,
        latest_turn_result: e.latest_turn_result,
        total_tokens: e.total_tokens,
        activity: copy_text(&e.activity),
        model: copy_text(&e.model),
        active_turn: e.active_turn,
        active_item: e.active_item,
        observed_live: e.observed_live,
    }
}

/// Two entries show the same state.
fn same_entry(a: &AgentMonitorEntry, b: &AgentMonitorEntry) -> (r: bool)
    ensures
        r == (a@ == b@),
{
    let r = a.status == b.status && a.latest_turn_result == b.latest_turn_result
        && a.total_tokens == b.total_tokens && same_text(&a.activity, &b.activity) && same_text(
        &a.model,
        &b.model,
    ) && a.active_turn == b.active_turn && a.active_item == b.active_item && a.observed_live
        == b.observed_live;
    proof {
        if r {
            assert(a@ =~= b@);
        }
    }
    r
}

/// The displayed status for a server thread status.
pub fn status_from_thread(status: &ThreadStatus) -> (r: AgentMonitorStatus)
    ensures
        r == status_of_thread(*status),
{
    match status {
        ThreadStatus::Active { active_flags } => {
            let mut waiting = false;
            let mut i: usize = 0;
            while i < active_flags.len()
                invariant
                    i <= active_flags@.len(),
                    waiting == exists|j: int|
                        0 <= j < i && (active_flags@[j] == ThreadActiveFlag::WaitingOnApproval
                            || active_flags@[j] == ThreadActiveFlag::WaitingOnUserInput),
                decreases active_flags@.len() - i,
            {
                let f = active_flags[i];
                if f == ThreadActiveFlag::WaitingOnApproval || f
                    == ThreadActiveFlag::WaitingOnUserInput {
                    waiting = true;
                }
                i = i + 1;
            }
            proof {
                let s = active_flags@;
                if waiting {
                    let j = choose|j: int|
                        0 <= j < s.len() && (s[j] == ThreadActiveFlag::WaitingOnApproval
                            || s[j] == ThreadActiveFlag::WaitingOnUserInput);
                    assert(s.contains(s[j]));
                } else {
                    if s.contains(ThreadActiveFlag::WaitingOnApproval) {
                        let j = choose|j: int| 0 <= j < s.len() && s[j] == ThreadActiveFlag::WaitingOnApproval;
                        assert(false);
                    }
                    if s.contains(ThreadActiveFlag::WaitingOnUserInput) {
                        let j = choose|j: int| 0 <= j < s.len() && s[j] == ThreadActiveFlag::WaitingOnUserInput;
                        assert(false);
                    }
                }
            }
            if waiting {
                AgentMonitorStatus::Waiting
            } else {
                AgentMonitorStatus::Running
            }
        },
        ThreadStatus::Idle => AgentMonitorStatus::Idle,
        ThreadStatus::SystemError => AgentMonitorStatus::SystemError,
        ThreadStatus::NotLoaded => AgentMonitorStatus::Closed,
    }
}

/// The result of a finished turn; none while it is in progress.
pub fn turn_result(status: &TurnStatus) -> (r: Option<AgentTurnResult>)
    ensures
        r == turn_result_of(*status),
{
    match status {
        TurnStatus::Completed => Some(AgentTurnResult::Completed),
        TurnStatus::Interrupted => Some(AgentTurnResult::Interrupted),
        TurnStatus::Failed => Some(AgentTurnResult::Failed),
        TurnStatus::InProgress => None,
    }
}

/// The displayed status for a turn result.
pub fn status_from_result(result: AgentTurnResult) -> (r: AgentMonitorStatus)
    ensures
        r == status_of_result(result),
{
    match result {
        AgentTurnResult::Completed => AgentMonitorStatus::Completed,
        AgentTurnResult::Interrupted => AgentMonitorStatus::Interrupted,
        AgentTurnResult::Failed => AgentMonitorStatus::Failed,
    }
}

/// `Using <name>`, bounded, or `Using tool`.
fn using_label(name: &str) -> (r: String)
    ensures
        r@ == using_label_text(name@),
{
    let mut text = "Using ".to_owned();
    text.append(name);
    match bounded_label(text.as_str()) {
        Some(label) => label,
        None => "Using tool".to_owned(),
    }
}

/// The safe activity text for an item.
pub fn activity_label(item: &ThreadItem) -> (r: String)
    ensures
        r@ == activity_text(*item),
{
    let label = match &item.kind {
        ThreadItemKind::UserMessage => "Reading instructions",
        ThreadItemKind::HookPrompt => "Running hook",
        ThreadItemKind::AgentMessage => "Writing response",
        ThreadItemKind::FunctionCallOutput => "Processing tool result",
        ThreadItemKind::Plan => "Updating plan",
        ThreadItemKind::Reasoning => "Reasoning",
        ThreadItemKind::CommandExecution { .. } => "Running command",
        ThreadItemKind::FileChange => "Editing files",
        ThreadItemKind::McpToolCall { server, tool } => {
            let mut name = server.clone();
            name.append("/");
            name.append(tool.as_str());
            return using_label(name.as_str());
        },
        ThreadItemKind::DynamicToolCall { namespace, tool } => {
            let name = match namespace {
                Some(ns) => {
                    let mut n = ns.clone();
                    n.append("/");
                    n.append(tool.as_str());
                    n
                },
                None => tool.clone(),
            };
            return using_label(name.as_str());
        },
        ThreadItemKind::CollabAgentToolCall => "Coordinating agents",
        ThreadItemKind::SubAgentActivity => "Coordinating agents",
        ThreadItemKind::WebSearch => "Searching the web",
        ThreadItemKind::ImageView => "Viewing image",
        ThreadItemKind::Sleep => "Waiting",
        ThreadItemKind::ImageGeneration => "Generating image",
        ThreadItemKind::EnteredReviewMode => "Reviewing changes",
        ThreadItemKind::ExitedReviewMode => "Finishing review",
        ThreadItemKind::ContextCompaction => "Compacting context",
    };
    label.to_owned()
}

/// A display label for free text: trimmed, absent when empty, at most
/// `MAX_LABEL_CHARS` characters, control characters shown as spaces.
pub fn bounded_label(value: &str) -> (r: Option<String>)
    ensures
        opt_text(r) == bounded_label_text(value@),
{
    let chars = chars_of(value);
    let (a, b) = trim_bounds(&chars);
    if a == b {
        return None;
    }
    let ghost t = chars@.subrange(a as int, b as int);
    let end = if b - a <= MAX_LABEL_CHARS {
        b
    } else {
        a + MAX_LABEL_CHARS
    };
    let ghost kept = chars@.subrange(a as int, end as int);
    proof {
        if t.len() > MAX_LABEL_CHARS {
            assert(kept == t.take(MAX_LABEL_CHARS as int));
        } else {
            assert(kept == t);
        }
    }
    let mut out = String::new();
    let mut i = a;
    while i < end
        invariant
            a <= i <= end <= chars@.len(),
            kept == chars@.subrange(a as int, end as int),
            out@ == kept.subrange(0, i - a).map_values(
                |c: char| if is_control_char(c) { ' ' } else { c },
            ),
        decreases end - i,
    {
        let c = chars[i];
        let shown = if is_control(c) {
            ' '
        } else {
            c
        };
        push_char(&mut out, shown);
        assert(kept.subrange(0, i + 1 - a).map_values(
            |c: char| if is_control_char(c) { ' ' } else { c },
        ) =~= kept.subrange(0, i - a).map_values(
            |c: char| if is_control_char(c) { ' ' } else { c },
        ).push(shown));
        i = i + 1;
    }
    assert(kept.subrange(0, end - a) == kept);
    Some(out)
}

/// The compact id of a turn or item id, as `str` hashing computes it with
/// `DefaultHasher`.
pub fn bounded_id(value: &str) -> (r: u64)
    ensures
        r == bounded_id_of(value@),
{
    let mut hasher = DefaultHasher::new();
    hasher.write(value.as_bytes());
    let terminator: [u8; 1] = [0xffu8];
    hasher.write(&terminator);
    proof {
        assert(terminator@ == seq![0xffu8]);
        assert(hasher@ == seq![vstd::utf8::encode_utf8(value@), seq![0xffu8]]);
    }
    hasher.finish()
}

/// Token usage notifications are cumulative snapshots: the latest one replaces the
/// earlier total instead of adding to it.
pub proof fn lemma_token_snapshots_replace(e: MonitorEntryView, first: i64, second: i64)
    ensures
        observed_entry(
            observed_entry(e, ServerNotification::ThreadTokenUsageUpdated { total_tokens: first }),
            ServerNotification::ThreadTokenUsageUpdated { total_tokens: second },
        ).total_tokens == Some(second),
{
}

/// A status change that leaves the thread neither active nor in a system error (such as
/// going idle) keeps the result of the latest turn, so a completed agent still shows as
/// completed.
pub proof fn lemma_idle_keeps_completed_turn(
    e: MonitorEntryView,
    turn: crate::protocol::Turn,
    status: ThreadStatus,
    fallback_running: bool,
    fallback_closed: bool,
)
    requires
        turn.status == TurnStatus::Completed,
        !is_stale_completion(e, turn.id@),
        !clears_turn_result(status),
    ensures
        ({
            let done = observed_entry(e, ServerNotification::TurnCompleted { turn });
            let after = observed_entry(done, ServerNotification::ThreadStatusChanged { status });
            &&& after.latest_turn_result == Some(AgentTurnResult::Completed)
            &&& described_status(Some(after), fallback_running, fallback_closed)
                == AgentMonitorStatus::Completed
            &&& completed_successfully(after)
        }),
{
}

/// Once a new turn has started, the completion of an earlier turn (another turn id) is
/// ignored: the agent stays running and is not counted as completed.
pub proof fn lemma_stale_completion_ignored(
    e: MonitorEntryView,
    started: crate::protocol::Turn,
    finished: crate::protocol::Turn,
    fallback_running: bool,
    fallback_closed: bool,
)
    requires
        bounded_id_of(started.id@) != bounded_id_of(finished.id@),
    ensures
        ({
            let running = observed_entry(e, ServerNotification::TurnStarted { turn: started });
            let after = observed_entry(running, ServerNotification::TurnCompleted { turn: finished });
            &&& after == running
            &&& described_status(Some(after), fallback_running, fallback_closed)
                == AgentMonitorStatus::Running
            &&& !completed_successfully(after)
        }),
{
}

/// A system error clears the result of the latest turn, so the error is what is shown.
pub proof fn lemma_system_error_is_shown(
    e: MonitorEntryView,
    fallback_running: bool,
    fallback_closed: bool,
)
    ensures
        described_status(
            Some(observed_entry(e, ServerNotification::ThreadStatusChanged { status: ThreadStatus::SystemError })),
            fallback_running,
            fallback_closed,
        ) == AgentMonitorStatus::SystemError,
{
}

/// The activity of a command shows only that a command runs, never its text.
pub proof fn lemma_command_activity_hides_command(item: ThreadItem)
    requires
        item.kind is CommandExecution,
    ensures
        activity_text(item) == "Running command"@,
{
}

/// Labels are never empty, hold at most `MAX_LABEL_CHARS` characters, and hold no
/// control characters.
pub proof fn lemma_bounded_label(s: Seq<char>)
    ensures
        bounded_label_text(s) matches Some(l) ==> {
            &&& 0 < l.len() <= MAX_LABEL_CHARS
            &&& forall|i: int| 0 <= i < l.len() ==> !is_control_char(#[trigger] l[i])
        },
{
    match bounded_label_text(s) {
        Some(l) => {
            let t = trimmed(s);
            let kept = if t.len() <= MAX_LABEL_CHARS { t } else { t.take(MAX_LABEL_CHARS as int) };
            assert forall|i: int| 0 <= i < l.len() implies !is_control_char(#[trigger] l[i]) by {
                assert(l[i] == (if is_control_char(kept[i]) { ' ' } else { kept[i] }));
            }
        },
        None => {},
    }
}

/// Neither a notification nor a listing grows the monitor beyond
/// `MAX_MONITORED_THREADS` threads.
pub proof fn lemma_monitor_stays_bounded(
    m: Map<u128, MonitorEntryView>,
    thread_id: ThreadId,
    n: ServerNotification,
    thread: Thread,
)
    requires
        m.dom().finite(),
        m.len() <= MAX_MONITORED_THREADS,
    ensures
        monitor_observed(m, thread_id, n).len() <= MAX_MONITORED_THREADS,
        monitor_seeded(m, thread_id, thread).len() <= MAX_MONITORED_THREADS,
{
    if !monitor_refuses(m, thread_id) {
        if m.contains_key(thread_id.uuid) {
            assert(m.insert(thread_id.uuid, observed_entry(monitor_entry(m, thread_id), n)).dom()
                =~= m.dom());
            assert(m.insert(thread_id.uuid, seeded_entry(monitor_entry(m, thread_id), thread)).dom()
                =~= m.dom());
        }
    }
}

/// Once a thread has been observed live, a listing only fills in a missing model.
pub proof fn lemma_live_state_wins_over_listing(e: MonitorEntryView, thread: Thread)
    requires
        e.observed_live,
    ensures
        seeded_entry(e, thread) == (MonitorEntryView {
            model: if e.model is None && thread.model is Some {
                bounded_label_text(thread.model->0@)
            } else {
                e.model
            },
            ..e
        }),
{
}

/// Observing a notification, removing a thread and clearing keep the monitor
/// consistent: a status of Completed is always backed by a completed latest turn.
pub proof fn lemma_observe_keeps_consistency(
    m: Map<u128, MonitorEntryView>,
    thread_id: ThreadId,
    n: ServerNotification,
)
    requires
        monitor_consistent(m),
    ensures
        monitor_consistent(monitor_observed(m, thread_id, n)),
        monitor_consistent(m.remove(thread_id.uuid)),
        monitor_consistent(Map::<u128, MonitorEntryView>::empty()),
{
    let e = monitor_entry(m, thread_id);
    assert(entry_consistent(e));
    assert(entry_consistent(observed_entry(e, n)));
    let mo = monitor_observed(m, thread_id, n);
    assert forall|k: u128| #[trigger] mo.contains_key(k) implies entry_consistent(mo[k]) by {
        if k != thread_id.uuid {
            assert(m.contains_key(k));
        }
    }
    let mr = m.remove(thread_id.uuid);
    assert forall|k: u128| #[trigger] mr.contains_key(k) implies entry_consistent(mr[k]) by {
        assert(m.contains_key(k));
    }
}

/// Seeding from a listing keeps the monitor consistent.
pub proof fn lemma_seed_keeps_consistency(
    m: Map<u128, MonitorEntryView>,
    thread_id: ThreadId,
    thread: Thread,
)
    requires
        monitor_consistent(m),
    ensures
        monitor_consistent(monitor_seeded(m, thread_id, thread)),
{
    let e = monitor_entry(m, thread_id);
    assert(entry_consistent(e));
    assert(entry_consistent(seeded_entry(e, thread)));
    let ms = monitor_seeded(m, thread_id, thread);
    assert forall|k: u128| #[trigger] ms.contains_key(k) implies entry_consistent(ms[k]) by {
        if k != thread_id.uuid {
            assert(m.contains_key(k));
        }
    }
}

/// In a consistent monitor the three ways of asking whether an agent completed agree:
/// `is_successfully_completed`, a described status of Completed, and a described latest
/// turn of Completed, whatever the fallbacks.
pub proof fn lemma_completion_views_agree(
    m: Map<u128, MonitorEntryView>,
    thread_id: ThreadId,
    fallback_running: bool,
    fallback_closed: bool,
)
    requires
        monitor_consistent(m),
    ensures
        ({
            let d = description_of(m, thread_id, fallback_running, fallback_closed);
            let done = m.contains_key(thread_id.uuid) && completed_successfully(m[thread_id.uuid]);
            &&& done == (d.status == AgentMonitorStatus::Completed)
            &&& done == (d.latest_turn_result == Some(AgentTurnResult::Completed))
        }),
{
    if m.contains_key(thread_id.uuid) {
        assert(entry_consistent(m[thread_id.uuid]));
    }
}

/// A started thread's model is recorded: once `ThreadStarted` reports a model, the thread
/// is described with that model as a bounded label, which is present exactly when the
/// model is not blank; a start that reports no model keeps the model known before.
pub proof fn lemma_thread_start_records_model(
    m: Map<u128, MonitorEntryView>,
    thread_id: ThreadId,
    thread: Thread,
    fallback_running: bool,
    fallback_closed: bool,
)
    requires
        !monitor_refuses(m, thread_id),
    ensures
        ({
            let started = (ServerNotification::ThreadStarted { thread: thread });
            let d = description_of(
                monitor_observed(m, thread_id, started),
                thread_id,
                fallback_running,
                fallback_closed,
            );
            &&& thread.model matches Some(model) ==> d.model == bounded_label_text(model@)
            &&& thread.model matches Some(model) ==> (d.model is Some <==> trimmed(model@).len() > 0)
            &&& thread.model is None ==> d.model == description_of(
                m,
                thread_id,
                fallback_running,
                fallback_closed,
            ).model
        }),
{
}

} // verus!
