# aipartner

The rules of a local-first chat companion, verified with Verus: what it stores,
what it remembers of its user, what it tells a model within a budget of tokens,
and how it reads the reply.

## Layout

- `src/` is the verified library.
  - `text`, `numbers`, `sorting`, `table`, `pattern`, `json`, `stamps`: text as
    sequences of characters, stable sorting, tables of rows, search patterns,
    JSON values, times and identifiers.
  - `models`, `settings`, `words`: records, providers and the words by which
    wishes are known.
  - `db`: settings, conversations, messages, memories, summaries and
    attachments, with the laws that every operation keeps.
  - `memory`, `lines`, `profile`, `summary`, `learning`: what is learned from
    what the user says.
  - `context`, `budget`, `chat`: what a model is told, and how it is asked.
  - `api`: requests, replies and streams.
  - `state`, `commands`: answers that are being written, and what the window
    asks for.
  - `files`, `uploads`, `importer`, `settings_file`, `settings_laws`, `backup`:
    attachments, imports, the settings file and backups.
- `tests/` runs the library on concrete values.
- `app/` is the desktop program around it: the window, the SQLite file, the
  settings file and the HTTP connection.

Contracts speak of texts as `Seq<char>` and of the database as the value
`Tables`. Operations that need the time or a fresh identifier come in two forms:
one takes them as arguments and is stated exactly, the other draws them.
