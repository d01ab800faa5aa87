# minal

The verified core of Minal, an AI-first terminal emulator, written in Verus.

`src/` holds the logic that is proved against its contracts:

- `tab`, `pane`: the binary tree of panes of each tab, splitting and closing
  panes, focus cycling, and the tab list.
- `input`, `keys`, `routing`, `chat`, `agent`: the text input line of the AI
  panels (a UTF-8 byte cursor on character boundaries), the bytes a key sends
  to the shell, user key bindings, which panel takes a key, and what each key
  does in the chat and agent panels.
- `chat_panel`, `agent_panel`, `error_panel`, `mcp_panel`, `renderer`,
  `color`: the small markdown of chat messages, status icons and colours,
  tool descriptions, line wrapping and cell colours.
- `event`, `manifest`, `manager`, `runtime`, `plugin_error`: plugin hooks,
  manifest validation, the plugin registry, and the string protocol through
  a plugin's WASM memory.
- `mouse`, `clipboard`, `shell`, `macos`, `text`: click counting, paste and
  OSC 52 answers, the shell-integration environment, agent command output,
  AppleScript quoting, and shared character helpers.

`app/` is the host program around it: TOML manifests and plugin directories
on disk, pixel geometry and panel animation, and the glue between keys and
panels. `tests/` runs the library on concrete values.
