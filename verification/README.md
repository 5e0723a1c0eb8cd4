# rnvim

The verified core of `rnvim`, a launcher that runs Neovim on a remote host
over SSH and attaches the local Neovim UI to it (`rnvim user@host`).

## Layout

- `src/` — the library, verified with Verus:
  - `text.rs`: string helpers (trimming, searching, replacing, decimal
    formatting and parsing) with exact specifications.
  - `platform.rs`: shared constants and the mapping from `uname -sm` to the
    release asset suffix.
  - `session.rs`: saved sessions — labels, ordering by last use, lookup by
    index, name or `host:dir`, adding, removing, marking used, the
    `session` subcommand, and the location of the session file.
  - `cli.rs`: the parsed command line.
  - `ssh.rs`: the control socket path, argument lists and remote shell lines
    of every `ssh`/`rsync` call; all calls after connecting go through one
    ControlMaster socket.
  - `completer.rs`: remote directory completion with a one-entry cache, as
    queries that ask for remote listings and resume with their output.
  - `github.rs`: the release request (endpoint and headers) and asset selection.
  - `prompt.rs`: picker entries and how answers are read.
  - `bootstrap.rs`: the server-installation state machine.
  - `connect.rs`: the connect flow state machine and the program's entry
    decision.
  - `server.rs`: the remote launcher's listen address and the nvim search,
    which stops at the first candidate that runs.
- `app/` — the program around the library: argument parsing (clap), the
  session file (serde_json), processes, prompts (inquire), HTTP (reqwest),
  and the loops that run the state machines. It also acts as
  `rnvim-server` when invoked under that name.
- `tests/` — tests of the library.
