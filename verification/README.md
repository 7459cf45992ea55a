# codex-mux

A terminal switchboard for Codex sessions in tmux: a popup lists the panes that
run Codex, switches between them, starts and resumes sessions, and gives panes
names that follow their conversations.

- `src/` is the library: every decision the program takes, with its contract,
  verified by Verus.
- `app/` is the program around it: arguments, terminal, processes, sockets,
  threads and the file system.
- `tests/` runs the library against boundaries in memory.

## How contracts are stated

Text is `Seq<char>`, bytes and paths are `Seq<u8>`. Where a function asks the
outside world and goes on by the answer, the boundary is a trait, and a wrapper
keeps a ghost record of every question with its answer. A spec function reads
such a record from a place on and says what comes of it; the contract of the
function is that its own record, read that way, gives its result. So the
sequence of questions and the result are both fixed, whatever the answers are.

Laws that span functions are public proof functions beside the functions they
speak of.

## What is trusted

Calls into `regex`, `serde_json` and `toml_edit`, and a few functions of the
standard library, stand behind small wrappers and specifications in
`src/pattern.rs`, `src/json.rs`, `src/codex_config/document.rs`,
`src/smart_naming/title.rs` and `src/text.rs`. The doc comment of each says what
is claimed of it.
