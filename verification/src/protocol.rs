//! The parts of the app-server protocol that the monitor and the picker read: thread and
//! turn states, thread items, and the notifications routed to one thread.

use vstd::prelude::*;

verus! {

/// Why an active thread is paused.
#[derive(Clone, Copy, Debug, PartialEq, Eq, Structural)]
pub enum ThreadActiveFlag {
    WaitingOnApproval,
    WaitingOnUserInput,
}

/// Run state of a thread as the server reports it.
#[derive(Clone, Debug)]
pub enum ThreadStatus {
    Active { active_flags: Vec<ThreadActiveFlag> },
    Idle,
    SystemError,
    NotLoaded,
}

/// Outcome of a turn as the server reports it.
#[derive(Clone, Copy, Debug, PartialEq, Eq, Structural)]
pub enum TurnStatus {
    Completed,
    Interrupted,
    Failed,
    InProgress,
}

/// One turn of a thread.
#[derive(Clone, Debug)]
pub struct Turn {
    pub id: String,
    pub status: TurnStatus,
}

/// A thread as listed by the server.
#[derive(Clone, Debug)]
pub struct Thread {
    pub id: String,
    pub status: ThreadStatus,
    pub turns: Vec<Turn>,
    pub model: Option<String>,
    pub agent_nickname: Option<String>,
    pub agent_role: Option<String>,
    /// The agent path that the thread's spawn source names, if any.
    pub agent_path: Option<String>,
    pub can_accept_direct_input: Option<bool>,
}

/// What a thread item is, with the fields that activity labels may show.
#[derive(Clone, Debug)]
pub enum ThreadItemKind {
    UserMessage,
    HookPrompt,
    AgentMessage,
    FunctionCallOutput,
    Plan,
    Reasoning,
    CommandExecution { command: String },
    FileChange,
    McpToolCall { server: String, tool: String },
    DynamicToolCall { namespace: Option<String>, tool: String },
    CollabAgentToolCall,
    SubAgentActivity,
    WebSearch,
    ImageView,
    Sleep,
    ImageGeneration,
    EnteredReviewMode,
    ExitedReviewMode,
    ContextCompaction,
}

/// One item of a turn.
#[derive(Clone, Debug)]
pub struct ThreadItem {
    pub id: String,
    pub kind: ThreadItemKind,
}

impl ThreadItem {
    /// The item's id.
    pub fn id(&self) -> (r: &str)
        ensures
            r@ == self.id@,
    {
        self.id.as_str()
    }
}

/// A server notification already routed to one thread.
#[derive(Clone, Debug)]
pub enum ServerNotification {
    ThreadStarted { thread: Thread },
    ThreadStatusChanged { status: ThreadStatus },
    ThreadClosed,
    ThreadArchived,
    ThreadDeleted,
    ThreadSettingsUpdated { model: String },
    ModelRerouted { to_model: String },
    ModelSafetyBufferingUpdated { model: String },
    TurnStarted { turn: Turn },
    TurnCompleted { turn: Turn },
    /// A cumulative token usage snapshot; `total_tokens` is the thread's running total.
    ThreadTokenUsageUpdated { total_tokens: i64 },
    ItemStarted { item: ThreadItem },
    ItemCompleted { item: ThreadItem },
    /// Any notification that the monitor does not read.
    Other,
}

} // verus!
