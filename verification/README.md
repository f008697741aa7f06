# xpty

Cross-platform pty (pseudo terminal) interface for Unix (`openpty`), Windows
(ConPTY) and serial ports, with the decisions verified by Verus.

The library decides for both platforms, but it builds for Unix targets only,
since it calls `nix` and `libc`.  The Windows part of `app/` shows how its
decisions are carried out there; it cannot be built together with the library
as it stands.

## Layout

- `src/` is the verified library.  It computes: what to ask of the operating
  system, and what an answer means.  It makes no system call.
- `app/` is the interface for programs: traits, types with `Display` and serde,
  and the system calls.  It performs what the library decides and hands the
  answers back as plain values.
- `tests/` runs the library.

## The library

| Module | What it decides |
|--------|-----------------|
| `cmdbuilder`, `env`, `base_env` | commands and their environments |
| `laws` | what holds of environments over all operations |
| `launch`, `lookup`, `search`, `path` | what a Unix process is started with |
| `spawn` | what is done in a child between fork and exec |
| `unix` | opening a pty, reading from it, ending its input |
| `kill` | ending a child |
| `win_launch`, `win_search`, `quoting`, `wide` | what a Windows process is started with |
| `win_child`, `conpty` | children and pseudo consoles of Windows |
| `serial` | terminals on serial ports |
| `pty`, `exit_status`, `error`, `os_string`, `text`, `shell` | the values that all of it works on |
| `foreign` | calls into the standard library and other crates, taken on trust |

Where outside work and decisions alternate, the library is a state machine: it
asks a question, takes the answer, and in the end gives a result.  An answer
that does not fit the question changes nothing.  The contract of each step is a
function from state and answer to the next state; laws over whole runs stand
beside it as proof functions.
