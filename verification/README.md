# bendsql

The logic of the Databend SQL shell and client as a Verus-verified library.

- `src/tokenizer.rs` — the SQL tokenizer (positions, comments, strings, keywords), specified
  by `lex` and proved to produce well-placed tokens.
- `src/session.rs` — statement classification (`QueryKind`), splitting input lines into
  statements (`Session::append_query`), planning each statement (`Session::handle_query`),
  the prompt, and the interactive shell's decisions after a statement or a failed read, and splitting a
  whole input; with laws about the
  splitter and the planner.
- `src/request.rs` — query requests and their builders.
- `src/conn.rs` — connection information, the connection kind of a DSN, storage hosts.
- `src/rest_api.rs` — presign statements and replies, loads through a stage (upload first,
  then insert), load options, CSV payloads, one-row queries (wait for rows, kill, first row),
  and paging through results.
- `src/options.rs` — option maps with unique keys kept in key order.
- `src/check.rs` — the decisions of the `check` command as a step function from the
  result of each request to the report lines and the next request.
- `src/ast.rs` — formatting statements for display.
- `src/text.rs` — character-level helpers (trimming, words, replacing, decimals).
- `app/` — the shell front end (line editing, history, JSON request bodies).
