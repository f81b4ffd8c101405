# agent_monitor

Verified state and view logic for watching parallel subagents in a terminal client.

- `src/agent_monitor.rs`: per-thread monitor folded from server notifications
  (status, latest turn result, cumulative tokens, safe activity label, model), with
  the laws it keeps.
- `src/agent_panel.rs`, `src/agent_panel_routing.rs`: the persistent active-agent
  panel (selection, focus, scrolling window) and the routing of keys to it.
- `src/active_agent_panel.rs`, `src/agent_picker.rs`: the rows of the panel and of the
  `/subagents` picker built from the known agents.
- `src/agent_picker_refresh.rs`: the paging decisions of a picker refresh and the
  folding of listed threads into the known agents.
- `src/thread_id.rs`, `src/text.rs`, `src/protocol.rs`, `src/keys.rs`: identifiers,
  text helpers, and the notification and key values the logic reads.
- `app/`: terminal glue (crossterm keys, ratatui drawing, the async refresh loop).
