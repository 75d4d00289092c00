# imessage-database (verified)

Verified parsing and rendering logic for data from the iMessage database, written in Verus.

## Layout

- `src/util/typedstream/` — the `typedstream` deserializer. Its behaviour is stated as a step
  function over a reader state (`parser.rs`), and every method of `TypedStreamReader` is proved
  to follow it.
- `src/tables/messages/` — messages and the bubbles their bodies are split into, from the
  `typedstream` attributes (`parse_body_typedstream`) or from the text alone
  (`parse_body_legacy`).
- `src/message_types/` — text effects, edited parts and Digital Touch messages: decoding their
  payload fields and drawing them on an SVG canvas.
- `src/util/attributed_string.rs` — an early reader of `NSAttributedString` streams, stated by
  spec functions with a budget of steps and proved to follow them.
- `src/util/` — the SVG and ASCII canvases (Bresenham lines, with their termination proved),
  platform names, and text helpers (UTF-8 positions, decimal and hexadecimal numbers).
- `src/exporter/` — the exporter's choices that do not touch the system: attachment handling
  and the format a copied attachment is converted to, drawing Digital Touch messages, which
  command line options go together, which formatter an app message goes to (`app_route.rs`),
  what to do with each message row streamed from the database (`export_loop.rs`), what each
  bubble of a message shows, with the attachment each attachment part uses (`parts.rs`), and
  how a message's header, bubbles, edits and timestamps are laid out as text (`txt.rs`) or
  as the values of its JSON object (`ndjson.rs`). What needs the database, the clock or the
  disk (names, dates, attachment copies, app payloads) is handed in as values.
- `src/error/` — the error types and their messages.
- `app/` — the command line program: `clap`, the file system, and the floating-point steps
  (fitting points to a canvas, kiss rotations) that cannot be verified.
- `tests/` — tests of the library on concrete values.
