use agent_monitor::agent_picker_refresh::agent_picker_thread_list_params;
use agent_monitor::agent_picker_refresh::SortDirection;
use agent_monitor::agent_picker_refresh::ThreadSourceKind;
use agent_monitor::agent_monitor::AgentMonitorState;
use agent_monitor::agent_navigation::format_agent_picker_item_name;
use agent_monitor::agent_navigation::AgentNavigationState;
use agent_monitor::agent_panel_routing::BottomPane;
use agent_monitor::agent_panel_routing::PaneContext;
use agent_monitor::agent_picker::FooterHint;
use agent_monitor::agent_picker::SelectionViewParams;
use agent_monitor::agent_picker_refresh::AgentPickerRefresh;
use agent_monitor::agent_picker_refresh::ThreadListPage;
use agent_monitor::app::App;
use agent_monitor::app_event::AppEvent;
use agent_monitor::keys::KeyCode;
use agent_monitor::keys::KeyEvent;
use agent_monitor::keys::KeyModifiers;
use agent_monitor::protocol::ServerNotification;
use agent_monitor::protocol::Thread;
use agent_monitor::protocol::ThreadStatus;
use agent_monitor::protocol::Turn;
use agent_monitor::protocol::TurnStatus;
use agent_monitor::thread_id::ThreadId;

fn make_app(main: ThreadId) -> App {
    App {
        primary_thread_id: Some(main),
        active_thread_id: Some(main),
        side_threads: Vec::new(),
        agent_navigation: AgentNavigationState::new(AgentMonitorState::default(), "↑/↓ to move.".to_string()),
        bottom_pane: BottomPane::new(),
    }
}

fn turn_started(turn_id: &str) -> ServerNotification {
    ServerNotification::TurnStarted {
        turn: Turn {
            id: turn_id.to_string(),
            status: TurnStatus::InProgress,
        },
    }
}

fn turn_completed(turn_id: &str, status: TurnStatus) -> ServerNotification {
    ServerNotification::TurnCompleted {
        turn: Turn {
            id: turn_id.to_string(),
            status,
        },
    }
}

fn tokens(total: i64) -> ServerNotification {
    ServerNotification::ThreadTokenUsageUpdated {
        total_tokens: total,
    }
}

fn names(params: &SelectionViewParams) -> Vec<String> {
    params.items.iter().map(|item| item.name.clone()).collect()
}

fn descriptions(params: &SelectionViewParams) -> Vec<Option<String>> {
    params.items.iter().map(|item| item.description.clone()).collect()
}

#[test]
fn active_panel_lists_only_running_children_and_routes_keys() {
    let main = ThreadId::from_u128(100);
    let worker = ThreadId::from_u128(101);
    let old = ThreadId::from_u128(102);
    let mut app = make_app(main);
    for (id, name) in [(main, "Main"), (worker, "Research"), (old, "Finished")] {
        app.agent_navigation
            .upsert(id, Some(name.to_string()), None, false);
        app.agent_navigation.monitor.observe(id, &turn_started("one"));
    }
    app.agent_navigation
        .monitor
        .observe(old, &turn_completed("one", TurnStatus::Completed));
    app.agent_navigation.monitor.observe(worker, &tokens(10));
    assert!(app.sync_active_agent_panel());
    let lines = app.bottom_pane.agent_panel.render_lines(10);
    let text: Vec<String> = lines
        .iter()
        .map(|l| l.spans.iter().map(|s| s.text.as_str()).collect::<String>())
        .collect();
    assert_eq!(text.len(), 2);
    assert!(text[0].contains("Active agents (1)"));
    assert_eq!(text[1], "  Research  Running · 10 tokens · model unknown");
    assert!(!app.sync_active_agent_panel());
    assert_eq!(app.bottom_pane.agent_panel_return_thread, None);

    let ctx = PaneContext {
        view_stack_open: false,
        composer_popup_active: false,
        questions_expanded: false,
        composer_in_paste_burst: false,
        composer_empty: true,
    };
    let down = KeyEvent::new(KeyCode::Down, KeyModifiers::none());
    assert!(app.bottom_pane.handle_agent_panel_key(down, ctx).handled);
    let esc = app
        .bottom_pane
        .handle_agent_panel_key(KeyEvent::new(KeyCode::Esc, KeyModifiers::none()), ctx);
    assert!(esc.handled);
    assert_eq!(esc.event, None);
    assert!(app.bottom_pane.handle_agent_panel_key(down, ctx).handled);
    let enter = app
        .bottom_pane
        .handle_agent_panel_key(KeyEvent::new(KeyCode::Enter, KeyModifiers::none()), ctx);
    assert_eq!(enter.event, Some(AppEvent::SelectAgentThread(worker)));

    app.agent_navigation
        .monitor
        .observe(worker, &turn_completed("one", TurnStatus::Completed));
    app.sync_active_agent_panel();
    assert!(app.bottom_pane.agent_panel.is_empty());
    assert!(app.bottom_pane.agent_panel.render_lines(10).is_empty());
}

#[test]
fn active_panel_skips_side_threads_and_offers_return_to_main() {
    let main = ThreadId::from_u128(1);
    let side = ThreadId::from_u128(2);
    let child = ThreadId::from_u128(3);
    let mut app = make_app(main);
    app.active_thread_id = Some(child);
    app.side_threads.push(side);
    app.agent_navigation.upsert(side, None, None, false);
    app.agent_navigation.upsert(child, None, Some(" explorer ".to_string()), false);
    app.agent_navigation.monitor.observe(side, &turn_started("t"));
    app.agent_navigation.monitor.observe(
        child,
        &ServerNotification::ThreadStatusChanged {
            status: ThreadStatus::Active {
                active_flags: vec![agent_monitor::protocol::ThreadActiveFlag::WaitingOnApproval],
            },
        },
    );
    app.sync_active_agent_panel();
    let lines = app.bottom_pane.agent_panel.render_lines(10);
    assert_eq!(lines.len(), 2);
    let row: String = lines[1].spans.iter().map(|s| s.text.as_str()).collect();
    assert_eq!(row, "  [explorer]  Waiting · tokens unavailable · model unknown");
    assert_eq!(app.bottom_pane.agent_panel_return_thread, Some(main));
}

#[test]
fn picker_name_formatting() {
    assert_eq!(format_agent_picker_item_name(Some("Ada"), Some("coder"), false), "Ada [coder]");
    assert_eq!(format_agent_picker_item_name(Some(" Ada "), Some("  "), false), "Ada");
    assert_eq!(format_agent_picker_item_name(None, Some("coder"), false), "[coder]");
    assert_eq!(format_agent_picker_item_name(None, None, false), "Agent");
    assert_eq!(format_agent_picker_item_name(Some("Ada"), None, true), "Main [default]");
}

#[test]
fn picker_updates_tokens_and_folds_completed_agents() {
    let main = ThreadId::from_string("00000000-0000-0000-0000-000000000100").unwrap();
    let worker = ThreadId::from_string("00000000-0000-0000-0000-000000000101").unwrap();
    let mut app = make_app(main);
    app.agent_navigation.upsert(main, None, None, false);
    app.agent_navigation
        .upsert(worker, Some("Worker".to_string()), None, false);
    app.agent_navigation.monitor.observe(worker, &turn_started("one"));
    let cached = vec![(main, "gpt-5".to_string())];
    let params = app.agent_picker_selection_view_params(Some(1), &cached);
    assert_eq!(params.view_id, "agent-picker");
    assert_eq!(params.title, "Subagents");
    assert_eq!(params.subtitle, "Live activity. ↑/↓ to move.");
    assert_eq!(params.footer_hint, FooterHint::StandardPopupHint);
    assert_eq!(params.min_description_width, 45);
    assert_eq!(params.initial_selected_idx, Some(1));
    assert_eq!(names(&params), vec!["Main [default]", "Worker"]);
    let selected = app.agent_picker_selected_thread(Some(1));
    assert_eq!(selected, Some(worker));

    app.agent_navigation.monitor.observe(worker, &tokens(10));
    let live = app.repaint_agent_picker(Some(1), selected, &cached).unwrap();
    assert_eq!(
        descriptions(&live),
        vec![
            Some("Unknown · gpt-5 · tokens unavailable".to_string()),
            Some("Running · model unknown · 10 tokens".to_string()),
        ]
    );
    assert_eq!(live.initial_selected_idx, Some(1));
    assert!(live.items[0].is_current);
    assert_eq!(
        live.items[1].search_value.as_deref(),
        Some("Worker 00000000-0000-0000-0000-000000000101")
    );
    assert_eq!(live.items[1].action, AppEvent::SelectAgentThread(worker));

    app.agent_navigation
        .monitor
        .observe(worker, &turn_completed("one", TurnStatus::Completed));
    let folded = app.repaint_agent_picker(Some(1), selected, &cached).unwrap();
    assert_eq!(names(&folded), vec!["Main [default]", "Show completed (1)"]);
    assert_eq!(folded.items[1].action, AppEvent::ToggleCompletedAgents);
    assert!(!folded.items[1].dismiss_on_select);
    assert_eq!(folded.initial_selected_idx, Some(1));

    app.agent_navigation.show_completed = true;
    let expanded = app.repaint_agent_picker(Some(1), None, &cached).unwrap();
    assert_eq!(
        names(&expanded),
        vec!["Main [default]", "Worker", "Hide completed (1)"]
    );
    assert_eq!(
        expanded.items[1].description.as_deref(),
        Some("Completed · model unknown · 10 tokens")
    );
    assert_eq!(app.repaint_agent_picker(None, None, &cached).is_none(), true);
}

#[test]
fn picker_keeps_failed_agents_visible() {
    let worker = ThreadId::from_string("00000000-0000-0000-0000-000000000101").unwrap();
    let mut app = App {
        primary_thread_id: None,
        active_thread_id: None,
        side_threads: Vec::new(),
        agent_navigation: AgentNavigationState::new(AgentMonitorState::default(), "↑/↓ to move.".to_string()),
        bottom_pane: BottomPane::new(),
    };
    app.agent_navigation
        .upsert(worker, Some("Worker".to_string()), None, false);
    app.agent_navigation.monitor.observe(worker, &turn_started("one"));
    app.agent_navigation
        .monitor
        .observe(worker, &turn_completed("one", TurnStatus::Failed));
    let params = app.agent_picker_selection_view_params(None, &Vec::new());
    assert_eq!(names(&params), vec!["Worker"]);
    assert_eq!(
        params.items[0].description.as_deref(),
        Some("Failed · model unknown · tokens unavailable")
    );
    assert_eq!(params.initial_selected_idx, None);
}

#[test]
fn picker_orders_primary_then_running_then_completed() {
    let main = ThreadId::from_u128(1);
    let a = ThreadId::from_u128(2);
    let b = ThreadId::from_u128(3);
    let c = ThreadId::from_u128(4);
    let mut app = make_app(main);
    app.agent_navigation.show_completed = true;
    for id in [a, b, main, c] {
        app.agent_navigation.upsert(id, None, None, false);
    }
    app.agent_navigation
        .monitor
        .observe(a, &turn_completed("x", TurnStatus::Completed));
    let order: Vec<ThreadId> = app
        .agent_picker_visible_threads()
        .iter()
        .map(|(id, _)| *id)
        .collect();
    assert_eq!(order, vec![main, b, c, a]);
    app.agent_navigation.show_completed = false;
    let order: Vec<ThreadId> = app
        .agent_picker_visible_threads()
        .iter()
        .map(|(id, _)| *id)
        .collect();
    assert_eq!(order, vec![main, b, c]);
    assert_eq!(app.agent_picker_completed_count(), 1);
    assert_eq!(app.agent_picker_selected_thread(Some(7)), None);
    assert_eq!(app.agent_picker_selected_thread(None), None);
    // The cursor row is clamped to the rows now shown, the toggle included.
    let params = app.repaint_agent_picker(Some(9), None, &Vec::new()).unwrap();
    assert_eq!(params.initial_selected_idx, Some(3));
}

#[test]
fn picker_prefers_agent_path_for_children() {
    let main = ThreadId::from_u128(1);
    let child = ThreadId::from_u128(2);
    let mut app = make_app(main);
    app.agent_navigation.upsert(main, None, None, false);
    app.agent_navigation.upsert(child, Some("nick".to_string()), None, false);
    app.agent_navigation.set_agent_path(child, Some("  root/child  ".to_string()));
    app.agent_navigation.set_agent_path(main, Some("root".to_string()));
    let params = app.agent_picker_selection_view_params(None, &Vec::new());
    assert_eq!(names(&params), vec!["Main [default]", "root/child"]);
    assert_eq!(params.initial_selected_idx, Some(0));
}

fn listed(id: u128, status: ThreadStatus, nickname: Option<&str>) -> Thread {
    Thread {
        id: ThreadId::from_u128(id).to_uuid_string(),
        status,
        turns: Vec::new(),
        model: None,
        agent_nickname: nickname.map(|n| n.to_string()),
        agent_role: None,
        agent_path: None,
        can_accept_direct_input: None,
    }
}

#[test]
fn refresh_pages_until_the_last_cursor() {
    let mut refresh = AgentPickerRefresh::new();
    assert_eq!(refresh.next_request(), Some(None));
    refresh.accept_page(ThreadListPage {
        data: vec![listed(1, ThreadStatus::Idle, None), listed(2, ThreadStatus::Idle, None)],
        next_cursor: Some("c1".to_string()),
    });
    assert_eq!(refresh.next_request(), Some(Some("c1".to_string())));
    refresh.accept_page(ThreadListPage {
        data: vec![listed(3, ThreadStatus::Idle, None)],
        next_cursor: None,
    });
    assert_eq!(refresh.next_request(), None);
    let ids: Vec<ThreadId> = refresh
        .into_threads()
        .iter()
        .map(|t| ThreadId::from_string(&t.id).unwrap())
        .collect();
    assert_eq!(
        ids,
        vec![ThreadId::from_u128(3), ThreadId::from_u128(2), ThreadId::from_u128(1)]
    );
}

#[test]
fn refresh_stops_on_repeated_cursor_and_at_the_limit() {
    let mut refresh = AgentPickerRefresh::new();
    assert_eq!(refresh.next_request(), Some(None));
    refresh.accept_page(ThreadListPage {
        data: Vec::new(),
        next_cursor: Some("c".to_string()),
    });
    assert_eq!(refresh.next_request(), Some(Some("c".to_string())));
    refresh.accept_page(ThreadListPage {
        data: Vec::new(),
        next_cursor: Some("c".to_string()),
    });
    assert_eq!(refresh.next_request(), None);

    let mut refresh = AgentPickerRefresh::new();
    let mut cursor = 0;
    while let Some(_) = refresh.next_request() {
        cursor += 1;
        refresh.accept_page(ThreadListPage {
            data: (0..300).map(|i| listed(i, ThreadStatus::Idle, None)).collect(),
            next_cursor: Some(format!("page-{cursor}")),
        });
    }
    assert_eq!(cursor, 4);
    assert_eq!(refresh.into_threads().len(), 1000);
}

#[test]
fn refresh_errors_fail_only_before_the_first_page() {
    let mut refresh = AgentPickerRefresh::new();
    assert_eq!(refresh.next_request(), Some(None));
    assert!(refresh.accept_error());
    assert_eq!(refresh.next_request(), None);

    let mut refresh = AgentPickerRefresh::new();
    refresh.next_request();
    refresh.accept_page(ThreadListPage {
        data: vec![listed(1, ThreadStatus::Idle, None)],
        next_cursor: Some("n".to_string()),
    });
    refresh.next_request();
    assert!(!refresh.accept_error());
    assert_eq!(refresh.into_threads().len(), 1);
}

#[test]
fn applying_a_refresh_adds_children_and_keeps_closed_ones_closed() {
    let main = ThreadId::from_u128(1);
    let mut app = make_app(main);
    app.agent_navigation.upsert(main, None, None, false);
    let mut listed_child = listed(2, ThreadStatus::Active { active_flags: Vec::new() }, Some("kid"));
    listed_child.can_accept_direct_input = Some(false);
    listed_child.agent_path = Some("root/kid".to_string());
    let closed = listed(3, ThreadStatus::NotLoaded, Some("gone"));
    let mut bad = listed(4, ThreadStatus::Idle, None);
    bad.id = "not-a-thread".to_string();
    let result = Ok(vec![listed_child, closed, bad]);
    assert_eq!(app.agent_navigation.begin_picker_refresh(main, 11), Some(11));
    assert_eq!(app.agent_navigation.begin_picker_refresh(main, 12), None);
    let params = app.apply_agent_picker_thread_refresh(
        main,
        11,
        result,
        &Vec::new(),
        Some(0),
        &Vec::new(),
    );
    let params = params.unwrap();
    assert_eq!(names(&params), vec!["Main [default]", "root/kid", "gone"]);
    let child = app.agent_navigation.get(ThreadId::from_u128(2)).unwrap();
    assert!(child.is_running);
    assert!(!child.is_closed);
    assert_eq!(app.agent_navigation.parent_owned, vec![ThreadId::from_u128(2)]);
    let gone = app.agent_navigation.get(ThreadId::from_u128(3)).unwrap();
    assert!(gone.is_closed);
    assert_eq!(
        app.agent_navigation
            .monitor
            .describe(ThreadId::from_u128(3), false, false)
            .status,
        agent_monitor::agent_monitor::AgentMonitorStatus::Closed
    );

    // A closed agent does not come back from a listing that says it is idle.
    let again = Ok(vec![listed(3, ThreadStatus::Idle, Some("back"))]);
    assert_eq!(app.agent_navigation.pending_picker_refresh, None);
    assert_eq!(app.agent_navigation.begin_picker_refresh(main, 13), Some(13));
    app.apply_agent_picker_thread_refresh(main, 13, again, &Vec::new(), None, &Vec::new());
    let gone = app.agent_navigation.get(ThreadId::from_u128(3)).unwrap();
    assert!(gone.is_closed);
    assert_eq!(gone.agent_nickname.as_deref(), Some("gone"));

    // Stale or failed refreshes change nothing.
    assert_eq!(app.agent_navigation.begin_picker_refresh(main, 14), Some(14));
    let stale = Ok(vec![listed(9, ThreadStatus::Idle, None)]);
    assert!(app
        .apply_agent_picker_thread_refresh(main, 99, stale, &Vec::new(), Some(0), &Vec::new())
        .is_none());
    assert!(app.agent_navigation.get(ThreadId::from_u128(9)).is_none());
    assert_eq!(app.agent_navigation.pending_picker_refresh, Some((main, 14)));
    let failed: Result<Vec<Thread>, String> = Err("offline".to_string());
    assert!(app
        .apply_agent_picker_thread_refresh(main, 14, failed, &Vec::new(), Some(0), &Vec::new())
        .is_none());
    assert_eq!(app.agent_navigation.pending_picker_refresh, None);
    let other_root = Ok(vec![listed(9, ThreadStatus::Idle, None)]);
    let other = ThreadId::from_u128(5);
    assert_eq!(app.agent_navigation.begin_picker_refresh(other, 15), Some(15));
    assert!(app
        .apply_agent_picker_thread_refresh(
            other,
            15,
            other_root,
            &Vec::new(),
            Some(0),
            &Vec::new()
        )
        .is_none());
    assert!(app.agent_navigation.get(ThreadId::from_u128(9)).is_none());
}

#[test]
fn live_threads_keep_their_running_flag() {
    let main = ThreadId::from_u128(1);
    let child = ThreadId::from_u128(2);
    let mut app = make_app(main);
    app.agent_navigation.upsert(child, None, None, false);
    let result = Ok(vec![listed(2, ThreadStatus::NotLoaded, None)]);
    app.agent_navigation.begin_picker_refresh(main, 1);
    app.apply_agent_picker_thread_refresh(main, 1, result, &vec![child], None, &Vec::new());
    let entry = app.agent_navigation.get(child).unwrap();
    assert!(!entry.is_closed);
    assert!(!entry.is_running);
}

#[test]
fn refresh_requests_list_spawned_descendants_newest_first() {
    let root = ThreadId::from_u128(0x100);
    let first = agent_picker_thread_list_params(root, None);
    assert_eq!(first.cursor, None);
    assert_eq!(first.limit, Some(100));
    assert_eq!(first.sort_direction, Some(SortDirection::Desc));
    assert_eq!(first.model_providers, Some(Vec::new()));
    assert_eq!(
        first.source_kinds,
        Some(vec![ThreadSourceKind::SubAgentThreadSpawn])
    );
    assert!(first.use_state_db_only);
    assert_eq!(
        first.ancestor_thread_id.as_deref(),
        Some("00000000-0000-0000-0000-000000000100")
    );
    let next = agent_picker_thread_list_params(root, Some("c2".to_string()));
    assert_eq!(next.cursor.as_deref(), Some("c2"));
}
