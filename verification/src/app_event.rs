//! Events that the agent views send to the application.

use vstd::prelude::*;
use crate::thread_id::ThreadId;

verus! {

/// A request to the application.
#[derive(Clone, Copy, Debug, PartialEq, Eq, Structural)]
pub enum AppEvent {
    /// Show the transcript of this thread.
    SelectAgentThread(ThreadId),
    /// Show or hide the agents whose latest turn completed.
    ToggleCompletedAgents,
}

} // verus!
