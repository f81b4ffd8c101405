//! Live state of parallel subagents: the monitor that folds server notifications into
//! per-thread summaries, the persistent active-agent panel, its focus routing, and the
//! rows of the `/subagents` picker.

pub mod agent_monitor;
pub mod agent_navigation;
pub mod agent_panel;
pub mod agent_picker;
pub mod agent_picker_refresh;
pub mod agent_panel_routing;
pub mod active_agent_panel;
pub mod app;
pub mod app_event;
pub mod keys;
pub mod protocol;
pub mod text;
pub mod thread_id;
