use std::hash::Hash;
use std::hash::Hasher;
use agent_monitor::agent_monitor::activity_label;
use agent_monitor::agent_monitor::bounded_id;
use agent_monitor::agent_monitor::bounded_label;
use agent_monitor::agent_monitor::status_from_result;
use agent_monitor::agent_monitor::AgentMonitorState;
use agent_monitor::agent_monitor::AgentMonitorStatus;
use agent_monitor::agent_monitor::AgentTurnResult;
use agent_monitor::protocol::ServerNotification;
use agent_monitor::protocol::Thread;
use agent_monitor::protocol::ThreadActiveFlag;
use agent_monitor::protocol::ThreadItem;
use agent_monitor::protocol::ThreadItemKind;
use agent_monitor::protocol::ThreadStatus;
use agent_monitor::protocol::Turn;
use agent_monitor::protocol::TurnStatus;
use agent_monitor::thread_id::id;
use agent_monitor::thread_id::thread_id;

fn turn(status: TurnStatus) -> Turn {
    Turn {
        id: "turn-1".to_string(),
        status,
    }
}

fn total_usage(total_tokens: i64) -> ServerNotification {
    ServerNotification::ThreadTokenUsageUpdated { total_tokens }
}

fn listed(status: ThreadStatus, turns: Vec<Turn>, model: Option<&str>) -> Thread {
    Thread {
        id: "0198a9d1-7f58-7d42-99e8-c6262c249001".to_string(),
        status,
        turns,
        model: model.map(|m| m.to_string()),
        agent_nickname: None,
        agent_role: None,
        agent_path: None,
        can_accept_direct_input: None,
    }
}

#[test]
fn idle_status_preserves_the_latest_completed_turn() {
    let thread_id = thread_id();
    let mut state = AgentMonitorState::default();
    state.observe(
        thread_id,
        &ServerNotification::TurnCompleted {
            turn: turn(TurnStatus::Completed),
        },
    );
    state.observe(
        thread_id,
        &ServerNotification::ThreadStatusChanged {
            status: ThreadStatus::Idle,
        },
    );

    let description = state.describe(thread_id, false, false);
    assert_eq!(description.status, AgentMonitorStatus::Completed);
    assert_eq!(
        description.latest_turn_result,
        Some(AgentTurnResult::Completed)
    );
    assert!(state.is_successfully_completed(thread_id));
}

#[test]
fn cumulative_token_snapshots_replace_instead_of_accumulate() {
    let thread_id = thread_id();
    let mut state = AgentMonitorState::default();
    for total_tokens in [120, 175] {
        state.observe(thread_id, &total_usage(total_tokens));
    }

    assert_eq!(
        state.describe(thread_id, false, false).total_tokens,
        Some(175)
    );
}

#[test]
fn command_activity_does_not_include_command_text() {
    let thread_id = thread_id();
    let mut state = AgentMonitorState::default();
    let item = ThreadItem {
        id: "item-1".to_string(),
        kind: ThreadItemKind::CommandExecution {
            command: "print-secret --token private".to_string(),
        },
    };
    state.observe(thread_id, &ServerNotification::ItemStarted { item });

    let description = state.describe(thread_id, true, false);
    assert_eq!(description.activity.as_deref(), Some("Running command"));
}

#[test]
fn monitor_description_snapshot() {
    let thread_id = thread_id();
    let mut state = AgentMonitorState::default();
    state.observe(
        thread_id,
        &ServerNotification::TurnCompleted {
            turn: turn(TurnStatus::Failed),
        },
    );
    state.observe(thread_id, &total_usage(12_345));

    let description = state.describe(thread_id, false, false);
    assert_eq!(description.status, AgentMonitorStatus::Failed);
    assert_eq!(description.latest_turn_result, Some(AgentTurnResult::Failed));
    assert_eq!(description.total_tokens, Some(12_345));
    assert_eq!(description.activity, None);
    assert_eq!(description.model, None);
}

#[test]
fn resumed_agent_is_visible_and_ignores_previous_turn_completion() {
    let id = thread_id();
    let mut state = AgentMonitorState::default();
    state.observe(
        id,
        &ServerNotification::TurnCompleted {
            turn: turn(TurnStatus::Completed),
        },
    );
    let mut next = turn(TurnStatus::InProgress);
    next.id = "turn-2".to_string();
    state.observe(id, &ServerNotification::TurnStarted { turn: next });
    state.observe(
        id,
        &ServerNotification::TurnCompleted {
            turn: turn(TurnStatus::Completed),
        },
    );
    assert_eq!(
        state.describe(id, false, true).status,
        AgentMonitorStatus::Running
    );
    assert!(!state.is_successfully_completed(id));
    state.observe(
        id,
        &ServerNotification::ThreadStatusChanged {
            status: ThreadStatus::SystemError,
        },
    );
    assert_eq!(
        state.describe(id, false, false).status,
        AgentMonitorStatus::SystemError
    );
}

#[test]
fn observe_reports_whether_display_state_changed() {
    let thread_id = thread_id();
    let mut state = AgentMonitorState::default();
    assert!(state.observe(thread_id, &total_usage(10)));
    assert!(!state.observe(thread_id, &total_usage(10)));
    assert!(!state.observe(thread_id, &ServerNotification::Other));
    assert!(state.observe(thread_id, &total_usage(11)));
}

#[test]
fn completion_of_the_running_turn_is_recorded() {
    let id = thread_id();
    let mut state = AgentMonitorState::default();
    let mut started = turn(TurnStatus::InProgress);
    started.id = "turn-7".to_string();
    state.observe(id, &ServerNotification::TurnStarted { turn: started });
    let mut finished = turn(TurnStatus::Interrupted);
    finished.id = "turn-7".to_string();
    assert!(state.observe(id, &ServerNotification::TurnCompleted { turn: finished }));
    let d = state.describe(id, true, false);
    assert_eq!(d.status, AgentMonitorStatus::Interrupted);
    assert_eq!(d.latest_turn_result, Some(AgentTurnResult::Interrupted));
    assert!(!state.is_successfully_completed(id));
}

#[test]
fn stale_completion_reports_no_change() {
    let id = thread_id();
    let mut state = AgentMonitorState::default();
    let mut started = turn(TurnStatus::InProgress);
    started.id = "turn-2".to_string();
    state.observe(id, &ServerNotification::TurnStarted { turn: started });
    assert!(!state.observe(
        id,
        &ServerNotification::TurnCompleted {
            turn: turn(TurnStatus::Completed)
        }
    ));
}

#[test]
fn in_progress_completion_clears_the_status() {
    let id = thread_id();
    let mut state = AgentMonitorState::default();
    state.observe(
        id,
        &ServerNotification::TurnCompleted {
            turn: turn(TurnStatus::InProgress),
        },
    );
    assert_eq!(state.describe(id, true, false).status, AgentMonitorStatus::Running);
    assert_eq!(state.describe(id, false, false).status, AgentMonitorStatus::Unknown);
}

#[test]
fn waiting_flags_show_waiting() {
    let id = thread_id();
    let mut state = AgentMonitorState::default();
    state.observe(
        id,
        &ServerNotification::ThreadStatusChanged {
            status: ThreadStatus::Active {
                active_flags: vec![ThreadActiveFlag::WaitingOnUserInput],
            },
        },
    );
    assert_eq!(state.describe(id, false, false).status, AgentMonitorStatus::Waiting);
    state.observe(
        id,
        &ServerNotification::ThreadStatusChanged {
            status: ThreadStatus::Active {
                active_flags: Vec::new(),
            },
        },
    );
    assert_eq!(state.describe(id, false, false).status, AgentMonitorStatus::Running);
    state.observe(
        id,
        &ServerNotification::ThreadStatusChanged {
            status: ThreadStatus::NotLoaded,
        },
    );
    assert_eq!(state.describe(id, false, false).status, AgentMonitorStatus::Closed);
}

#[test]
fn closing_clears_activity_and_shows_closed() {
    let id = thread_id();
    let mut state = AgentMonitorState::default();
    state.observe(
        id,
        &ServerNotification::ItemStarted {
            item: ThreadItem {
                id: "item-1".to_string(),
                kind: ThreadItemKind::Reasoning,
            },
        },
    );
    assert_eq!(
        state.describe(id, false, false).activity.as_deref(),
        Some("Reasoning")
    );
    state.observe(id, &ServerNotification::ThreadArchived);
    let d = state.describe(id, false, false);
    assert_eq!(d.status, AgentMonitorStatus::Closed);
    assert_eq!(d.activity, None);
}

#[test]
fn item_completion_clears_only_the_active_item() {
    let id = thread_id();
    let mut state = AgentMonitorState::default();
    let item = |item_id: &str| ThreadItem {
        id: item_id.to_string(),
        kind: ThreadItemKind::FileChange,
    };
    state.observe(id, &ServerNotification::ItemStarted { item: item("a") });
    state.observe(id, &ServerNotification::ItemCompleted { item: item("b") });
    assert_eq!(
        state.describe(id, false, false).activity.as_deref(),
        Some("Editing files")
    );
    state.observe(id, &ServerNotification::ItemCompleted { item: item("a") });
    assert_eq!(state.describe(id, false, false).activity, None);
}

#[test]
fn model_updates_are_bounded_labels() {
    let id = thread_id();
    let mut state = AgentMonitorState::default();
    state.observe(
        id,
        &ServerNotification::ThreadSettingsUpdated {
            model: "  gpt-5\tmini  ".to_string(),
        },
    );
    assert_eq!(
        state.describe(id, false, false).model.as_deref(),
        Some("gpt-5 mini")
    );
    state.observe(
        id,
        &ServerNotification::ModelRerouted {
            to_model: "   ".to_string(),
        },
    );
    assert_eq!(state.describe(id, false, false).model, None);
    state.observe(
        id,
        &ServerNotification::ModelSafetyBufferingUpdated {
            model: "o3".to_string(),
        },
    );
    assert_eq!(state.describe(id, false, false).model.as_deref(), Some("o3"));
}

#[test]
fn describe_unknown_thread_uses_fallbacks() {
    let state = AgentMonitorState::default();
    let id = thread_id();
    assert_eq!(state.describe(id, false, false).status, AgentMonitorStatus::Unknown);
    assert_eq!(state.describe(id, true, false).status, AgentMonitorStatus::Running);
    assert_eq!(state.describe(id, true, true).status, AgentMonitorStatus::Closed);
    assert_eq!(state.describe(id, true, true).total_tokens, None);
    assert!(!state.is_successfully_completed(id));
}

#[test]
fn monitor_keeps_at_most_a_thousand_threads() {
    let mut state = AgentMonitorState::default();
    for value in 0..1000u128 {
        assert!(state.observe(id(value), &total_usage(1)));
    }
    assert!(!state.observe(id(5000), &total_usage(1)));
    assert_eq!(state.describe(id(5000), false, false).total_tokens, None);
    assert!(!state.observe(id(3), &total_usage(1)));
    assert!(state.observe(id(3), &total_usage(2)));
    state.remove(id(3));
    assert_eq!(state.describe(id(3), false, false).total_tokens, None);
    assert!(state.observe(id(5000), &total_usage(1)));
    state.clear();
    assert_eq!(state.describe(id(5000), false, false).total_tokens, None);
}

#[test]
fn seed_takes_the_latest_turn_result_until_observed_live() {
    let id = thread_id();
    let mut state = AgentMonitorState::default();
    state.seed(
        id,
        &listed(
            ThreadStatus::Idle,
            vec![turn(TurnStatus::Failed), turn(TurnStatus::Completed)],
            Some("gpt-5"),
        ),
    );
    let d = state.describe(id, false, false);
    assert_eq!(d.status, AgentMonitorStatus::Completed);
    assert_eq!(d.model.as_deref(), Some("gpt-5"));

    state.seed(id, &listed(ThreadStatus::SystemError, Vec::new(), Some("other")));
    let d = state.describe(id, false, false);
    assert_eq!(d.status, AgentMonitorStatus::SystemError);
    assert_eq!(d.latest_turn_result, None);
    assert_eq!(d.model.as_deref(), Some("gpt-5"));

    state.observe(id, &total_usage(3));
    state.seed(id, &listed(ThreadStatus::NotLoaded, Vec::new(), None));
    assert_eq!(state.describe(id, false, false).status, AgentMonitorStatus::SystemError);
}

#[test]
fn seed_without_finished_turns_uses_thread_status() {
    let id = thread_id();
    let mut state = AgentMonitorState::default();
    state.seed(
        id,
        &listed(ThreadStatus::NotLoaded, vec![turn(TurnStatus::InProgress)], None),
    );
    assert_eq!(state.describe(id, false, false).status, AgentMonitorStatus::Closed);
}

#[test]
fn status_labels() {
    assert_eq!(AgentMonitorStatus::SystemError.label(), "Error");
    assert_eq!(AgentMonitorStatus::Waiting.label(), "Waiting");
    assert_eq!(
        status_from_result(AgentTurnResult::Interrupted),
        AgentMonitorStatus::Interrupted
    );
}

#[test]
fn bounded_label_trims_caps_and_masks_control_characters() {
    assert_eq!(bounded_label("   "), None);
    assert_eq!(bounded_label(""), None);
    assert_eq!(bounded_label("\u{3000} gpt \u{85}").as_deref(), Some("gpt"));
    assert_eq!(bounded_label("a\u{1}b\u{9f}c").as_deref(), Some("a b c"));
    let long = "x".repeat(200);
    assert_eq!(bounded_label(&long), Some("x".repeat(96)));
    let label = bounded_label(&format!("  {}é  ", "y".repeat(95))).unwrap();
    assert_eq!(label.chars().count(), 96);
    assert!(label.ends_with('é'));
}

#[test]
fn bounded_id_matches_string_hashing() {
    let mut hasher = std::collections::hash_map::DefaultHasher::new();
    "turn-1".hash(&mut hasher);
    assert_eq!(bounded_id("turn-1"), hasher.finish());
    assert_eq!(bounded_id("turn-1"), bounded_id(&"turn-1".to_string()));
    assert_ne!(bounded_id("turn-1"), bounded_id("turn-2"));
}

#[test]
fn tool_activity_names_the_tool_only() {
    let mcp = ThreadItem {
        id: "i".to_string(),
        kind: ThreadItemKind::McpToolCall {
            server: "github".to_string(),
            tool: "search".to_string(),
        },
    };
    assert_eq!(activity_label(&mcp), "Using github/search");
    let dynamic = ThreadItem {
        id: "i".to_string(),
        kind: ThreadItemKind::DynamicToolCall {
            namespace: Some("ns".to_string()),
            tool: "run".to_string(),
        },
    };
    assert_eq!(activity_label(&dynamic), "Using ns/run");
    let bare = ThreadItem {
        id: "i".to_string(),
        kind: ThreadItemKind::DynamicToolCall {
            namespace: None,
            tool: "run\nnow".to_string(),
        },
    };
    assert_eq!(activity_label(&bare), "Using run now");
    let sleep = ThreadItem {
        id: "i".to_string(),
        kind: ThreadItemKind::Sleep,
    };
    assert_eq!(activity_label(&sleep), "Waiting");
}
