# dcm

A lightweight Docker container manager: it lists, inspects, starts, stops,
restarts and removes containers, shows their resource usage and follows their
logs, talking to the Engine API over its Unix socket.

- `src/` is the library, verified with Verus: the request paths and query
  strings the tool sends (`docker`, `query`), the rows it shows for containers
  and usage samples (`display`), the frames it reads from a log stream
  (`logs`), the command-line data (`cli`), errors (`error`) and text helpers
  (`text`). Each public function states its result in its contract; the
  proof functions state the laws (a query reads back as the parameters it was
  built from, a log frame reads back as the stream and payload it was written
  with, network totals do not depend on order).
- `app/` is the program: argument parsing, the HTTP client, JSON and the
  terminal output.
- `tests/` runs the library on concrete values.
