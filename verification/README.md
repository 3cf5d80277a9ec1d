# kaku

The decision logic of the Kaku terminal as a verified library: the command
catalogue with its palette and menus, the tools of the AI assistant and the
guards around them, inline AI jobs, the chat overlay, and the bookkeeping of
windows, updates, startup and GPU buffers.

Every function in `src/` carries a contract that Verus checks. Calls into other
crates stand behind a few small functions whose contracts are stated and not
proved; each says in its doc comment which outside function it relies on and
what it claims of it.

| Where | What |
| --- | --- |
| `text`, `json`, `order`, `net` | Strings, JSON values, stable sorting, addresses |
| `keys`, `key_assignment`, `commands`, `palette`, `menubar` | Actions, their descriptions, and where they are offered |
| `paths`, `registry`, `tools`, `code_search`, `shell`, `web`, `web_search`, `reading` | The assistant's tools |
| `codex_connection`, `inline_ai`, `inline_ai_control`, `local_hostname` | Connections, jobs, and control messages |
| `chat_prompt`, `chat_input`, `chat_stream`, `chat_models`, `chat_history`, `chat_app`, `chat_display` | The chat overlay |
| `frontend`, `app_events`, `updates`, `startup`, `confirm`, `renderstate` | Windows, events, updates, startup, GPU buffers |

`app/` is ordinary Rust around the library: the command line, files, processes
and connections. `tests/` runs the library on concrete values.
