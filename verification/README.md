# embedded_text

Verified text layout logic for drawing multi-line text in a bounding box on small displays.

- `alignment`: horizontal placement of a line (left, center, right, fully justified, with
  the justified space configuration that distributes leftover pixels) and vertical placement
  of the text (top, middle, bottom, scrolling).
- `parser`: splits text into words, whitespace runs, line breaks, tabs and soft wrapping
  points; `parser::ansi` parses ANSI color escape sequences; `plain_parser` is the tokenizer
  without style tokens.
- `plugin`: the plugin wrapper that peeks, consumes and transforms tokens, the `Tail`
  plugin (keeps the last line visible) and the `Ansi` plugin (in-band styling).
- `middleware`: the lookahead wrapper over the plain tokenizer, which consumes peeked tokens
  by their UTF-8 byte length.
- `color`: the 16 standard colors and the 256 color palette.

Every function in `src/` is proved against its contract with Verus, but for two small
wrappers marked `external_body` that call `ansi_parser::parse_escape` and `az`'s saturating
cast: their contracts are trusted, not proved. The `law_*` proof functions state properties
that relate several functions. `app/` converts colors and style
tokens to embedded-graphics types.
