# rustdown

A colourised Markdown renderer for the terminal, verified with Verus.

- `src/` is the verified library. `events` holds Markdown events as plain
  values and the parse of a document into them by pulldown-cmark;
  `render` is the renderer, a state machine from events to styled text, with
  its tables in `render/table`, the properties it keeps in `render/laws`
  and the states that differ only in the fence setting in `render/fences`;
  `markdown` runs the renderer over a document; `sanitize` strips terminal
  escapes from raw HTML; `style` holds styled output as text plus style
  changes; `text` holds the character-level helpers.
- `app/` is the command line: it reads the document, calls the library and
  writes the styled text to the terminal through termcolor.
- `tests/` exercises the library on concrete documents and events.
