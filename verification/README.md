# lib

Pieces of a streaming XML reader and writer, written in Verus and verified.

- `reader::config`: the parser configuration and its builder-style setters.
- `reader::lexer`, `reader::events`, `reader::parser`: tokens, events and the
  pull parser's states for CDATA sections (`inside_cdata`) and closing tags
  (`inside_closing_tag_name`), with qualified-name reading and the closing of
  open elements.
- `writer::config`, `writer::emitter`: the emitter, which renders writer
  events as XML text into a `String` and tracks what was written last to
  place markup on lines of its own. Each operation's contract gives the
  exact text written and the next state, over the spec functions of
  `writer::emitter`.
- `name`, `namespace`, `attribute`, `escape`, `common`: qualified names,
  namespace scopes, attributes, escaping of text, and XML versions.

`app/` writes the emitter's text to any `std::io::Write` sink.
