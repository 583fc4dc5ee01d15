# arrow-coder

The core of a terminal coding agent, written in Verus: the library's
functions in `src/` are verified, and nearly all carry a contract stating
their result.

## Layout

- `src/` — the verified library.
  - `types`, `estimate`, `text` — conversation messages, token estimates,
    character-level text operations.
  - `config`, `vibe`, `repository`, `cli_config` — provider presets, model
    settings, layering of configurations, the configuration repository.
  - `turn`, `agent`, `middleware`, `compaction` — the decisions of an agent
    turn: opening it, assembling a streamed reply, recovering from a cut
    stream, the checks before a tool runs, output caps, referenced files
    and compaction.
  - `llm` — request and reply shapes of the model APIs, error classes.
  - `sse`, `chat_stream`, `responses`, `openai_stream` — framing of event
    streams and the assembly of streamed replies for each model API.
  - `rewind`, `session_log`, `task`, `user_doc` — file checkpoints for undo,
    session log entries, task graphs, structured user input.
  - `tui_app`, `tui_ui`, `cli_app`, `cli_event`, `cli_project`, `cli_ui`,
    `line_edit`, `commands` — the state of the terminal interfaces, what
    each key, command and engine answer does to it, and the text on screen.
  - `launch` — what the command line decides before a run: loop limits,
    working directory, the errors that stop a run, the model listing.
  - `sorted` — lexicographic order and sorted, duplicate-free lists.
- `tests/` — tests of the library on concrete values.
- `app/` — the program around the library: argument handling, configuration
  files, the terminal, the agent loop's model calls and tool runs, and the
  floating-point parts of usage reporting.

Outside crates are reached from `src/` only through a few wrappers whose
contracts are trusted: `uuid` (identifiers), `std::time` (clock),
`unicode-width` (column widths), `reqwest` (status line text) and
`serde_json` (whether a text is JSON), plus a few `std` conversions.
