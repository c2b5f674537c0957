# serial_mcp_rs

A Model Context Protocol server for serial port communication, written as a
Verus-verified library with a thin executable around it.

## Layout

- `src/` — the verified library.
  - `text.rs` — decimal and hexadecimal rendering, case folding, character classes.
  - `codec.rs` — hexadecimal, base64 and UTF-8 codecs (the `hex`, `base64` and
    `std` implementations behind trusted wrappers) and the round-trip facts.
  - `error.rs` — the crate-wide error, its categories and messages, and the
    narrower error kinds that fold into it.
  - `utils.rs` — port classification, data formats and conversion, escaping,
    validation, buffer search and splitting, checksums, identifiers, strings.
  - `config.rs` — configuration sections, defaults, merging of command-line
    arguments, validation.
  - `registry.rs` — an insertion-ordered map from string keys to values.
  - `serial/` — line settings, connection errors, port descriptions and the
    registry of open connections (one connection per port).
  - `session/` — sessions and the session manager (limits, port restrictions,
    connection hand-over, statistics, idle cleanup).
  - `tools/` — tool arguments, the data encodings of the tools and the texts
    the tools answer with.
- `app/` — the program: command line, configuration file, logging, serial
  I/O over tokio-serial and the MCP tool registration.
- `tests/` — tests of the library.
