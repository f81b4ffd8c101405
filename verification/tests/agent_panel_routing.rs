use agent_monitor::agent_panel::AgentPanelRow;
use agent_monitor::agent_panel_routing::BottomPane;
use agent_monitor::agent_panel_routing::PaneContext;
use agent_monitor::app_event::AppEvent;
use agent_monitor::keys::KeyCode;
use agent_monitor::keys::KeyEvent;
use agent_monitor::keys::KeyModifiers;
use agent_monitor::thread_id::ThreadId;

fn context(composer_empty: bool) -> PaneContext {
    PaneContext {
        view_stack_open: false,
        composer_popup_active: false,
        questions_expanded: false,
        composer_in_paste_burst: false,
        composer_empty,
    }
}

// The composer's cursor and its paste handling are not part of this library, so this
// scenario checks only the routing half: a draft keeps Down in the composer, modifiers
// are ignored, and Down then Escape move focus to the panel and back.
#[test]
fn active_agent_panel_preserves_drafts_and_hides_cursor_only_when_focused() {
    let mut pane = BottomPane::new();
    pane.set_active_agent_panel(
        vec![AgentPanelRow {
            thread_id: ThreadId::from_u128(1),
            name: "worker".to_string(),
            detail: "Running · 10 tokens".to_string(),
        }],
        None,
    );
    let draft = context(false);
    let empty = context(true);
    let down = KeyEvent::new(KeyCode::Down, KeyModifiers::none());
    assert!(!pane.handle_agent_panel_key(down, draft).handled);
    assert!(!pane.agent_panel.is_focused());
    assert!(
        !pane
            .handle_agent_panel_key(KeyEvent::new(KeyCode::Down, KeyModifiers::alt()), empty)
            .handled
    );
    assert!(pane.handle_agent_panel_key(down, empty).handled);
    assert!(pane.agent_panel.is_focused());
    let esc = pane.handle_agent_panel_key(KeyEvent::new(KeyCode::Esc, KeyModifiers::none()), empty);
    assert!(esc.handled);
    assert_eq!(esc.event, None);
    assert!(!pane.agent_panel.is_focused());
    assert!(pane.handle_agent_panel_key(down, empty).handled);
    assert!(pane.agent_panel.is_focused());
}

#[test]
fn escape_from_inspected_agent_returns_to_main_without_interrupting() {
    let mut pane = BottomPane::new();
    let main = ThreadId::from_u128(1);
    pane.set_active_agent_panel(Vec::new(), Some(main));
    let outcome = pane.handle_agent_panel_key(
        KeyEvent::new(KeyCode::Esc, KeyModifiers::none()),
        context(true),
    );
    assert!(outcome.handled);
    assert_eq!(outcome.event, Some(AppEvent::SelectAgentThread(main)));
    assert!(!outcome.redraw);
}

#[test]
fn other_views_keep_the_keys() {
    let mut pane = BottomPane::new();
    pane.set_active_agent_panel(
        vec![AgentPanelRow {
            thread_id: ThreadId::from_u128(7),
            name: "w".to_string(),
            detail: "d".to_string(),
        }],
        None,
    );
    let down = KeyEvent::new(KeyCode::Down, KeyModifiers::none());
    let mut ctx = context(true);
    ctx.view_stack_open = true;
    assert!(!pane.handle_agent_panel_key(down, ctx).handled);
    let mut ctx = context(true);
    ctx.composer_in_paste_burst = true;
    assert!(!pane.handle_agent_panel_key(down, ctx).handled);
    assert!(!pane.agent_panel.is_focused());
}

#[test]
fn enter_opens_the_selected_agent_and_unfocuses() {
    let mut pane = BottomPane::new();
    let worker = ThreadId::from_u128(9);
    assert!(pane.set_active_agent_panel(
        vec![AgentPanelRow {
            thread_id: worker,
            name: "w".to_string(),
            detail: "d".to_string(),
        }],
        None,
    ));
    let ctx = context(true);
    pane.handle_agent_panel_key(KeyEvent::new(KeyCode::Down, KeyModifiers::none()), ctx);
    let outcome = pane.handle_agent_panel_key(KeyEvent::new(KeyCode::Enter, KeyModifiers::none()), ctx);
    assert!(outcome.handled);
    assert_eq!(outcome.event, Some(AppEvent::SelectAgentThread(worker)));
    assert!(!pane.agent_panel.is_focused());
    pane.handle_agent_panel_key(KeyEvent::new(KeyCode::Down, KeyModifiers::none()), ctx);
    let other = pane.handle_agent_panel_key(KeyEvent::new(KeyCode::Other, KeyModifiers::none()), ctx);
    assert!(!other.handled);
    assert!(other.redraw);
    assert!(!pane.agent_panel.is_focused());
}
