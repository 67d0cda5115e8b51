# kb

A structured knowledge base for coding agents, kept in a `.kb/` directory: per-domain
JSON-lines expertise files, a YAML configuration, session files, and access and change
logs.

- `src/` is the verified library: the `.kb/` layout, domain-name validation, the
  configuration's domain list and git set-up, file-reference checking, session
  identifiers, lifecycle and listing, log filtering, and the decisions of the agent-facing
  tools (record building, field edits, type filters, session tracking). Every function
  there carries a contract that Verus proves; the `law_*` proof functions state the
  properties that hold across calls.
- `app/` reads and writes the files, reads the clock, and prints the `access-log`,
  `check` and `session` commands' output. Its `tool_calls.rs` runs the record, edit,
  delete, search and prime calls from the library's steps (`src/steps.rs`): it reads
  what a step needs, lets the step decide, writes, and logs only after the write.
- Not part of this crate: the tool server's transport, and the storage steps the tools
  rely on — writing expertise files and giving new records their ids, finding a
  record's duplicate, resolving an id prefix, full-text search, the primed context
  text and file locking. The library takes their results as arguments where its
  decisions need them (for instance the position of a duplicate, or a record's
  summary text).
- `tests/` runs the library on concrete values.
