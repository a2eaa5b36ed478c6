# tui_deck

A terminal slide deck presenter for Markdown (Marp-style) decks, written as a
Verus library with a thin terminal program around it.

- `src/` is the verified library:
  - `text`, `slide`, `content`: character-sequence utilities, the slide data
    model and its views, plain text of inline content;
  - `markdown`, `directives`, `parser`: the Markdown event stream from
    pulldown-cmark, front matter and comment directives, and the parser state
    machine that turns a document into slides;
  - `style`, `render`: colors and styled lines, CSS color parsing, and the
    slide renderer (word wrapping, tables, code highlighting with syntect,
    display widths with unicode-width);
  - `session`, `ipc`: navigation and key handling, the status bar, and the
    messages sent to the presenter console;
  - `deck_laws`, `layout_laws`, `session_laws`: properties proved of parsed
    decks, wrapped text, drawn slides and navigation.
- `app/` holds `main`, the terminal loops (ratatui, crossterm), the Unix
  socket plumbing (std and tokio) and the serde forms of the messages.
- `tests/` runs the library on concrete decks.
