# zellij-mcp

Reliable pane fabric for AI agents: a small Model Context Protocol server that wraps the
zellij CLI with session discovery and pane-id-addressed tools, with its decisions verified by
Verus.

- Pane ids are required for every per-pane operation. There is no current-focus fallback.
- `keep_focus_on` is first class on `spawn-pane`.
- Every tool returns structured JSON with an MCP `outputSchema`.

| Tool | Purpose | Required input | Output |
| --- | --- | --- | --- |
| `list-sessions` | Discover zellij sessions | none | `{ sessions: [...] }` |
| `list-panes` | Discover panes | none | `{ panes: [...] }` |
| `spawn-pane` | Create a split or floating pane | `cwd` | `{ pane_id }` |
| `spawn-pane-with-target` | Create a split next to a given pane | `cwd` | `{ pane_id }` |
| `send-text` | Type into a specific pane | `pane_id`, `text` | `{ ok }` |
| `read-pane` | Capture viewport or scrollback | `pane_id` | `{ text }` |
| `focus-pane` | Move focus to a pane by id | `pane_id` | `{ ok }` |
| `resize-pane` | Grow or shrink a pane by id | `pane_id`, `direction` | `{ ok }` |
| `kill-pane` | Close a pane by id | `pane_id` | `{ ok }` |

## Layout

- `src/` is the verified library. A tool call is a task: it says which arguments `zellij` is
  to be run with, and is resumed with what that run came to, until it has an answer. The
  contract of each step is exact; `src/laws.rs` proves what holds over whole calls, such as
  that a pane id is handed out only after zellij has listed that pane, that the focus is
  restored whether a pane could be opened or not, and that every call ends.
- `app/` is the server around it: it speaks MCP over stdio, runs `zellij` and waits.
- `tests/` runs the library on concrete values.

What is taken on trust is the Unicode lowercase mapping, the repair of malformed UTF-8, and
the reading of JSON by `serde_json`. Each stands behind one function in `src/outside.rs` or
`src/json.rs` that says what is claimed of it.
