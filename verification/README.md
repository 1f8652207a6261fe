# iptv_core

The core of an IPTV client, written in Verus: M3U playlist parsing, XMLTV
programme-guide parsing, Xtream Codes request and stream-URL building, and a
SQLite channel database.

- `src/` is the verified library. Parsers are state machines that receive one
  line (M3U) or one XML event (XMLTV) at a time and hand back records in
  batches of bounded size; their contracts state, over spec functions of the
  whole input, which records come out and in what order. The database keeps
  a ghost log of the statements it sends, with their parameters and what
  SQLite answered; each method's contract says which statements it sent and
  how its result was read from the answers.
- `app/` holds what the library leaves to its caller: reading from readers,
  the quick-xml event loop, HTTP requests to Xtream panels, serde and
  thiserror types, and the `RustyCore` facade that locks the database.
- `tests/` runs the library on concrete inputs.
