# termula

Render LaTeX math in terminal output: a pipe filter (`cmd | termula`) and a
command wrapper (`termula -- cmd`) that finds math in a stream of text and
shows it as an image (Kitty or iTerm2 protocol), as Unicode art (utftex) or
as inline Unicode.

## Layout

- `src/` is the verified library. Verus proves every function in it against
  its contract, except the few marked `#[verifier::external_body]` and the
  `assume_specification` items: they call std, base64 or the clock, and
  their contracts are taken as given, not proved.
  - `scanner.rs`: the `--delimiters` list and which math delimiters are on.
  - `stream_scanner.rs`: the streaming scanner, a state machine over
    characters whose behaviour is the spec function `run`; ANSI escapes pass
    through, math blocks come out cleaned. Proved here: cutting the input
    into chunks changes nothing, text that yields no math comes back
    unchanged at end of stream (but for the cases where the stream ends
    inside an opener or a block's closing backticks), math events hold no
    escape and no surrounding white space, a pending `$` always has its
    start time.
  - `converter.rs`, `symbols.rs`: inline Unicode conversion, the typst
    document and cache key for image rendering, and the shaping of utftex's
    output.
  - `renderer.rs`: the Kitty and iTerm2 escape sequences for a PNG.
  - `terminal.rs`: capability names, detection from environment values, the
    dark-background guess.
  - `render.rs`, `config.rs`: settings resolution and, per event, the
    renderings to try in order.
  - `text.rs`: character-sequence helpers (trim, search, number formatting).
- `app/` is the program: command line, config file, pty wrapper, the outside
  tools (utftex, typst), the image cache on disk, and terminal output.
- `tests/` runs the library on concrete inputs.
