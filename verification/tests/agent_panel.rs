use agent_monitor::agent_panel::AgentPanel;
use agent_monitor::agent_panel::AgentPanelAction;
use agent_monitor::agent_panel::AgentPanelRow;
use agent_monitor::agent_panel::SpanStyle;
use agent_monitor::keys::KeyCode;
use agent_monitor::keys::KeyEvent;
use agent_monitor::keys::KeyEventKind;
use agent_monitor::keys::KeyModifiers;
use agent_monitor::thread_id::ThreadId;

fn id(value: u128) -> ThreadId {
    ThreadId::from_u128(value)
}

fn row(value: u128, name: &str, detail: &str) -> AgentPanelRow {
    AgentPanelRow {
        thread_id: id(value),
        name: name.to_string(),
        detail: detail.to_string(),
    }
}

fn key(code: KeyCode) -> KeyEvent {
    KeyEvent::new(code, KeyModifiers::none())
}

fn snapshot(panel: &AgentPanel, height: u16) -> String {
    panel
        .render_lines(height)
        .iter()
        .map(|line| {
            line.spans
                .iter()
                .map(|span| span.text.as_str())
                .collect::<String>()
                .trim_end()
                .to_string()
        })
        .collect::<Vec<_>>()
        .join("\n")
}

#[test]
fn renders_persistent_and_focused_states() {
    let mut panel = AgentPanel::default();
    panel.set_rows(vec![row(1, "research", "running"), row(2, "tests", "waiting")]);

    assert_eq!(
        snapshot(&panel, panel.desired_height(60)),
        "  Active agents (2)  ↓ browse  /subagents all\n  research  running\n  tests  waiting"
    );

    panel.focus();
    assert_eq!(
        panel.handle_key_event(key(KeyCode::Down)),
        AgentPanelAction::Consumed
    );
    assert_eq!(
        snapshot(&panel, panel.desired_height(60)),
        "  Active agents (2)  ↑↓ navigate  enter open  esc prompt\n  research  running\n› tests  waiting"
    );
}

#[test]
fn caps_rows_and_scrolls_to_selection() {
    let mut panel = AgentPanel::default();
    panel.set_rows(
        (1..=8)
            .map(|value| row(value, &format!("agent-{value}"), "running"))
            .collect(),
    );
    panel.focus();
    for _ in 0..7 {
        assert_eq!(
            panel.handle_key_event(key(KeyCode::Down)),
            AgentPanelAction::Consumed
        );
    }

    assert_eq!(panel.desired_height(60), 7);
    assert_eq!(
        snapshot(&panel, panel.desired_height(60)),
        "  Active agents (8)  ↑↓ navigate  enter open  esc prompt\n  agent-3  running\n  agent-4  running\n  agent-5  running\n  agent-6  running\n  agent-7  running\n› agent-8  running"
    );
}

#[test]
fn keyboard_selects_and_returns_to_prompt() {
    let mut panel = AgentPanel::default();
    panel.set_rows(vec![row(1, "one", "running"), row(2, "two", "waiting")]);

    assert_eq!(
        panel.handle_key_event(key(KeyCode::Down)),
        AgentPanelAction::Ignored
    );
    panel.focus();
    assert_eq!(
        panel.handle_key_event(key(KeyCode::Down)),
        AgentPanelAction::Consumed
    );
    assert_eq!(
        panel.handle_key_event(key(KeyCode::Enter)),
        AgentPanelAction::Select(id(2))
    );
    assert_eq!(
        panel.handle_key_event(key(KeyCode::Esc)),
        AgentPanelAction::ReturnToPrompt
    );
    assert!(!panel.is_focused());
}

#[test]
fn updates_preserve_or_safely_clamp_selection() {
    let mut panel = AgentPanel::default();
    panel.set_rows(vec![
        row(1, "one", "running"),
        row(2, "two", "running"),
        row(3, "three", "waiting"),
    ]);
    panel.focus();
    panel.handle_key_event(key(KeyCode::Down));

    panel.set_rows(vec![row(3, "three", "waiting"), row(2, "two", "running")]);
    assert_eq!(
        panel.handle_key_event(key(KeyCode::Enter)),
        AgentPanelAction::Select(id(2))
    );

    panel.set_rows(vec![row(3, "three", "waiting")]);
    assert_eq!(
        panel.handle_key_event(key(KeyCode::Enter)),
        AgentPanelAction::Select(id(3))
    );

    panel.set_rows(Vec::new());
    assert_eq!(panel.desired_height(60), 0);
    assert!(panel.is_empty());
    assert!(!panel.is_focused());
    assert_eq!(
        panel.handle_key_event(key(KeyCode::Enter)),
        AgentPanelAction::Ignored
    );
}

#[test]
fn set_rows_reports_changes_only() {
    let mut panel = AgentPanel::default();
    assert!(!panel.set_rows(Vec::new()));
    assert!(panel.set_rows(vec![row(1, "one", "running")]));
    assert!(!panel.set_rows(vec![row(1, "one", "running")]));
    assert!(panel.set_rows(vec![row(1, "one", "waiting")]));
}

#[test]
fn selection_clamps_at_both_ends() {
    let mut panel = AgentPanel::default();
    panel.set_rows(vec![row(1, "one", "a"), row(2, "two", "b")]);
    panel.focus();
    assert_eq!(panel.handle_key_event(key(KeyCode::Up)), AgentPanelAction::Consumed);
    assert_eq!(
        panel.handle_key_event(key(KeyCode::Enter)),
        AgentPanelAction::Select(id(1))
    );
    panel.handle_key_event(key(KeyCode::Down));
    panel.handle_key_event(key(KeyCode::Down));
    assert_eq!(
        panel.handle_key_event(key(KeyCode::Enter)),
        AgentPanelAction::Select(id(2))
    );
    assert_eq!(panel.handle_key_event(key(KeyCode::Other)), AgentPanelAction::Ignored);
    let release = KeyEvent {
        code: KeyCode::Down,
        modifiers: KeyModifiers::none(),
        kind: KeyEventKind::Release,
    };
    assert_eq!(panel.handle_key_event(release), AgentPanelAction::Ignored);
}

#[test]
fn removed_selection_moves_to_the_same_position() {
    let mut panel = AgentPanel::default();
    panel.set_rows(vec![row(1, "a", ""), row(2, "b", ""), row(3, "c", "")]);
    panel.focus();
    panel.handle_key_event(key(KeyCode::Down));
    panel.set_rows(vec![row(1, "a", ""), row(3, "c", ""), row(4, "d", "")]);
    assert_eq!(
        panel.handle_key_event(key(KeyCode::Enter)),
        AgentPanelAction::Select(id(3))
    );
}

#[test]
fn render_styles_and_small_heights() {
    let mut panel = AgentPanel::default();
    assert!(panel.render_lines(5).is_empty());
    panel.set_rows(vec![row(1, "one", "running")]);
    assert!(panel.render_lines(0).is_empty());
    assert_eq!(panel.render_lines(1).len(), 1);
    assert_eq!(panel.desired_height(0), 0);
    panel.focus();
    let lines = panel.render_lines(4);
    assert_eq!(lines.len(), 2);
    assert_eq!(lines[0].spans[0].style, SpanStyle::Bold);
    assert_eq!(lines[0].spans[1].style, SpanStyle::Dim);
    assert_eq!(lines[1].spans[0].text, "› ");
    assert_eq!(lines[1].spans[1].style, SpanStyle::Accent);
    assert_eq!(lines[1].spans[2].text, "  running");
    assert_eq!(lines[1].spans[2].style, SpanStyle::Dim);
}
