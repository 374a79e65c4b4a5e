# immich_describer

The verified core of a tool that writes AI-generated descriptions for the
photos of an Immich server. The library is written in Verus. Its functions
carry contracts that Verus proves, except for a few trusted items whose
contracts Verus takes on faith: the wrappers around `regex` and `uuid` in
`src/asset_id.rs` (`first_capture_group`, `parse_uuid_text`, `uuid_text`)
and the specifications given to std's `String::push` and `str::to_lowercase`
in `src/text.rs`. Each states what the outside code does, in its doc comment.

- `src/description.rs` splits a description into the user's text and the
  `[AI] … [/AI]` block, and assembles one again; the proofs show that parsing
  an assembled description gives its parts back and that re-generating the
  AI block keeps the user's text.
- `src/asset_id.rs` reads asset ids out of preview file names (through the
  `regex` and `uuid` crates) and writes them as text.
- `src/upsert.rs` decides the steps of storing a description (update, check,
  insert) and builds the SQL statements, which hold only fixed text and the
  asset id; the description goes to the database as a bound parameter.
  `src/database.rs` turns query rows
  into the asset's metadata and reports failed queries.
- `src/locale.rs`, `src/validation.rs` and `src/error.rs` choose the interface
  language, check the command line and the Immich directory, and pick the
  message for each error; `src/report.rs` holds the message types and
  `src/text.rs` the character-level helpers.

`app/` is the unverified shell: it reads the environment and the file system,
talks to PostgreSQL, translates the messages with `rust-i18n`, prints them,
and holds the serialisable forms of the records.
