# studypilot

The verified core of StudyPilot, a local-first terminal study assistant:
the parsers, editors, pickers, state machines and renderers of its user
interface, each with a contract proved by Verus.

## Layout

- `src/` — the library:
  - `text` — character-level string specifications and operations
    (trimming, white-space tokens, decimal numbers, joining).
  - `input_edit` — the chat input line edited by character position.
  - `commands`, `course_cmd` — slash commands: routing, argument
    normalisation, `/course`, `/review`, `/open`, `/budget`, `/outline`.
  - `navigation` — workspaces (Home, Course, Session), cursors, Esc and
    Ctrl+C, the input backup while overlays use the line, key dispatch order.
  - `palette` — command palette, list pickers, learning-map picker, model
    picker.
  - `note_browser`, `session_browser`, `review_keys`, `warmup`, `setup` —
    the key-driven state machines of the overlays and the setup wizard.
  - `markdown`, `highlight`, `outline_render`, `cards`, `review_text`,
    `followup`, `status` — rendering of Markdown, code, outlines, cards,
    review summaries, tutor prompts and the status line.
  - `refs` — `[n]` source references and citations.
  - `selection` — mouse selection and scrolling of the chat view.
  - `import_path` — import path normalisation and classification.
- `tests/` — ordinary Rust tests of the library.
- `app/` — the terminal program: crossterm and ratatui, files, clipboard,
  logging.

Calls into syntect, pulldown-cmark, unicode-width and serde_json sit behind
small trusted wrappers whose contracts are stated next to them.
