# http_wire

HTTP/1.1 message handling for a small TCP server, verified with Verus.

- `src/` is the library. Every function carries a contract over the models in
  its module, and `src/laws.rs` proves the properties that span functions
  (round trips of header lines and parameters, map lookups after inserts,
  independence of how a connection cuts the bytes of a request).
  - `text`: character-level string operations (`split`, `split_once`, `trim`,
    decimal numbers) with the meaning `str` gives them.
  - `grammar`: tokens, media types, method lists, host names, header lines.
  - `error`, `value`, `header`, `map`, `date`: header fields and their checks.
  - `message`, `parse`: methods, status reasons, request heads, message text.
  - `reader`: the state machine that gathers one request from the reads of a
    connection.
  - `server`: the response to a request and what a connection does next.
- `app/main.rs` is the server: it listens on 127.0.0.1:40000, performs the
  reads and writes, and logs.
- `tests/` runs the library on concrete values, and checks the grammar rules
  against the regular expressions they stand for.
