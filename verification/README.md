# opencode_gpui

The core of a desktop client for an OpenCode server, written in Verus: what
the client computes and decides is stated in `requires`/`ensures` contracts
and proved.

- `src/` is the verified library.
  - `event`, `json`, `model`: the server's events, read from their JSON
    payloads, and the sessions, messages and parts they carry.
  - `workspace`, `part_merge`, `timeline`, `timeline_cache`, `sessions`,
    `session_list`, `reducer_laws`: the reducer that folds the event stream
    into the open tabs' timelines and the session list, and its laws.
  - `editor`: the prompt editor's text, selection and editing commands over
    grapheme and word boundaries.
  - `markdown`, `markdown_parse`: the builder that turns markdown events into
    blocks, and the parse that reads them from text with pulldown-cmark.
  - `status_dialog`, `status_laws`, `plugins`, `sidebar`, `selection`,
    `selection_filter`, `timeline_overlay`, `timeline_actions`,
    `message_actions`, `commands`, `workspace_ui`, `tab_bar`, `entrances`:
    the dialogs, pickers, panes and commands, as state machines and pure
    functions.
  - `layout`, `settings`, `restore`, `directories`, `startup`: what is saved
    between runs, how a window is restored, and how connecting retries.
  - `text`, `seqs`, `assoc`, `json_text`, `format`, `part_format`,
    `interaction`: shared text, JSON, sequence and formatting helpers.
- `tests/`: tests of the library, run against the compiled crate.
- `app/`: a small terminal front end: files, standard input, and
  floating-point pane widths.
