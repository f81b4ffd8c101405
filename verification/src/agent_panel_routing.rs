//! Focus routing for the persistent active-agent list, before global Escape handling.

use vstd::prelude::*;
use crate::agent_panel::AgentPanel;
use crate::agent_panel::AgentPanelAction;
use crate::agent_panel::AgentPanelRow;
use crate::agent_panel::PanelView;
use crate::agent_panel::panel_after_key;
use crate::agent_panel::panel_view_wf;
use crate::agent_panel::panel_with_rows;
use crate::agent_panel::rows_view;
use crate::app_event::AppEvent;
use crate::keys::KeyCode;
use crate::keys::KeyEvent;
use crate::keys::KeyEventKind;
use crate::thread_id::ThreadId;

verus! {

/// What the rest of the bottom pane is doing when a key arrives.
#[derive(Clone, Copy, Debug, PartialEq, Eq, Structural)]
pub struct PaneContext {
    /// A modal view (a picker, a popup list) is open.
    pub view_stack_open: bool,
    /// The composer shows a popup such as completions.
    pub composer_popup_active: bool,
    /// A question prompt is expanded.
    pub questions_expanded: bool,
    /// The composer is receiving a burst of pasted keys.
    pub composer_in_paste_burst: bool,
    /// The composer holds no draft.
    pub composer_empty: bool,
}

/// What handling a key asks of the application.
#[derive(Clone, Copy, Debug, PartialEq, Eq, Structural)]
pub struct PanelKeyOutcome {
    /// The key was taken by the panel and goes no further.
    pub handled: bool,
    /// An event to send.
    pub event: Option<AppEvent>,
    /// The pane should be drawn again.
    pub redraw: bool,
}

/// Another view owns the keys, or the key is a release.
pub open spec fn panel_blocked(ctx: PaneContext, key: KeyEvent) -> bool {
    ctx.view_stack_open || ctx.composer_popup_active || ctx.questions_expanded
        || ctx.composer_in_paste_burst || key.kind == KeyEventKind::Release
}

/// The panel, the return target and what the key asks, after a key.
pub open spec fn routed_key(
    panel: PanelView,
    return_thread: Option<ThreadId>,
    ctx: PaneContext,
    key: KeyEvent,
) -> (PanelView, PanelKeyOutcome) {
    let none = PanelKeyOutcome { handled: false, event: None, redraw: false };
    if panel_blocked(ctx, key) {
        (panel, none)
    } else if !panel.focused {
        if !ctx.composer_empty || key.modifiers.bits != 0 {
            (panel, none)
        } else if key.code == KeyCode::Esc && return_thread is Some {
            (
                panel,
                PanelKeyOutcome {
                    handled: true,
                    event: Some(AppEvent::SelectAgentThread(return_thread->0)),
                    redraw: false,
                },
            )
        } else if key.code != KeyCode::Down || panel.rows.len() == 0 {
            (panel, none)
        } else {
            (
                PanelView { focused: true, ..panel },
                PanelKeyOutcome { handled: true, event: None, redraw: true },
            )
        }
    } else {
        let (after, action) = panel_after_key(panel, key);
        match action {
            AgentPanelAction::Select(t) => (
                PanelView { focused: false, ..after },
                PanelKeyOutcome {
                    handled: true,
                    event: Some(AppEvent::SelectAgentThread(t)),
                    redraw: true,
                },
            ),
            AgentPanelAction::ReturnToPrompt | AgentPanelAction::Consumed => (
                after,
                PanelKeyOutcome { handled: true, event: None, redraw: true },
            ),
            AgentPanelAction::Ignored => (
                PanelView { focused: false, ..after },
                PanelKeyOutcome { handled: false, event: None, redraw: true },
            ),
        }
    }
}

/// The agent panel of the bottom pane, with the thread that Escape returns to.
#[derive(Debug)]
pub struct BottomPane {
    pub agent_panel: AgentPanel,
    pub agent_panel_return_thread: Option<ThreadId>,
}

impl BottomPane {
    /// An empty panel with no return target.
    pub fn new() -> (r: BottomPane)
        ensures
            r.agent_panel@.rows.len() == 0,
            r.agent_panel@.selected is None,
            !r.agent_panel@.focused,
            r.agent_panel_return_thread is None,
    {
        BottomPane { agent_panel: AgentPanel::new(), agent_panel_return_thread: None }
    }

    /// Replaces the panel rows and the return target; reports whether to redraw.
    pub fn set_active_agent_panel(
        &mut self,
        rows: Vec<AgentPanelRow>,
        return_thread: Option<ThreadId>,
    ) -> (redraw: bool)
        ensures
            final(self).agent_panel_return_thread == return_thread,
            final(self).agent_panel@ == panel_with_rows(old(self).agent_panel@, rows_view(rows@)),
            redraw == (old(self).agent_panel@.rows != rows_view(rows@)),
    {
        self.agent_panel_return_thread = return_thread;
        self.agent_panel.set_rows(rows)
    }

    /// Routes a key to the panel when no other view owns it. Down from an empty draft
    /// focuses the panel; Escape with nothing focused returns to the main thread without
    /// interrupting it.
    pub fn handle_agent_panel_key(&mut self, key: KeyEvent, ctx: PaneContext) -> (r: PanelKeyOutcome)
        ensures
            (final(self).agent_panel@, r) == routed_key(
                old(self).agent_panel@,
                old(self).agent_panel_return_thread,
                ctx,
                key,
            ),
            final(self).agent_panel_return_thread == old(self).agent_panel_return_thread,
    {
        let none = PanelKeyOutcome { handled: false, event: None, redraw: false };
        if ctx.view_stack_open || ctx.composer_popup_active || ctx.questions_expanded
            || ctx.composer_in_paste_burst || key.kind == KeyEventKind::Release {
            return none;
        }
        if !self.agent_panel.is_focused() {
            if !ctx.composer_empty || key.modifiers.bits != 0 {
                return none;
            }
            if key.code == KeyCode::Esc {
                if let Some(thread) = self.agent_panel_return_thread {
                    return PanelKeyOutcome {
                        handled: true,
                        event: Some(AppEvent::SelectAgentThread(thread)),
                        redraw: false,
                    };
                }
            }
            if key.code != KeyCode::Down || self.agent_panel.is_empty() {
                return none;
            }
            self.agent_panel.focus();
            PanelKeyOutcome { handled: true, event: None, redraw: true }
        } else {
            match self.agent_panel.handle_key_event(key) {
                AgentPanelAction::Select(thread) => {
                    self.agent_panel.unfocus();
                    PanelKeyOutcome {
                        handled: true,
                        event: Some(AppEvent::SelectAgentThread(thread)),
                        redraw: true,
                    }
                },
                AgentPanelAction::ReturnToPrompt | AgentPanelAction::Consumed => {
                    PanelKeyOutcome { handled: true, event: None, redraw: true }
                },
                AgentPanelAction::Ignored => {
                    self.agent_panel.unfocus();
                    PanelKeyOutcome { handled: false, event: None, redraw: true }
                },
            }
        }
    }
}

/// While the composer holds a draft, keys stay with the composer and never focus the
/// unfocused panel.
pub proof fn lemma_draft_keeps_keys_in_composer(
    panel: PanelView,
    return_thread: Option<ThreadId>,
    ctx: PaneContext,
    key: KeyEvent,
)
    requires
        !panel.focused,
        !ctx.composer_empty,
    ensures
        routed_key(panel, return_thread, ctx, key) == (
            panel,
            PanelKeyOutcome { handled: false, event: None, redraw: false },
        ),
{
}

/// Escape with nothing focused goes back to the main thread by selecting it, and
/// interrupts nothing.
pub proof fn lemma_escape_returns_to_main(
    panel: PanelView,
    main: ThreadId,
    ctx: PaneContext,
    key: KeyEvent,
)
    requires
        !panel.focused,
        !panel_blocked(ctx, key),
        ctx.composer_empty,
        key.modifiers.bits == 0,
        key.code == KeyCode::Esc,
    ensures
        routed_key(panel, Some(main), ctx, key) == (
            panel,
            PanelKeyOutcome {
                handled: true,
                event: Some(AppEvent::SelectAgentThread(main)),
                redraw: false,
            },
        ),
{
}

/// With the panel focused, Escape only gives focus back to the prompt: it is taken by the
/// panel and sends no event.
pub proof fn lemma_focused_escape_sends_nothing(
    panel: PanelView,
    return_thread: Option<ThreadId>,
    ctx: PaneContext,
    key: KeyEvent,
)
    requires
        panel.focused,
        !panel_blocked(ctx, key),
        key.code == KeyCode::Esc,
    ensures
        routed_key(panel, return_thread, ctx, key).1 == (PanelKeyOutcome {
            handled: true,
            event: None,
            redraw: true,
        }),
        !routed_key(panel, return_thread, ctx, key).0.focused,
{
}

/// With the panel focused, Enter opens the selected thread and gives focus back.
pub proof fn lemma_enter_opens_selected_thread(
    panel: PanelView,
    return_thread: Option<ThreadId>,
    ctx: PaneContext,
    key: KeyEvent,
)
    requires
        panel_view_wf(panel),
        panel.focused,
        !panel_blocked(ctx, key),
        key.code == KeyCode::Enter,
    ensures
        routed_key(panel, return_thread, ctx, key).1 == (PanelKeyOutcome {
            handled: true,
            event: Some(AppEvent::SelectAgentThread(panel.selected->0)),
            redraw: true,
        }),
        !routed_key(panel, return_thread, ctx, key).0.focused,
{
}

} // verus!
