# narrowd

A single-user SSH daemon whose decisions are verified with
[Verus](https://github.com/verus-lang/verus).

`src/` is the verified library: the rules of the daemon as functions from plain
values to plain values, each with a contract that Verus proves. `app/` is the
program around it: the command line, sockets, processes, files and the clock.
One rule stands there too, because it counts in floating point: how many tokens a
peer's bucket holds (`app/tokens.rs`). The library decides what is asked of it and
what follows from the answer. `tests/` runs the library on concrete values.

| Module | What it decides |
| --- | --- |
| `config`, `directive`, `values`, `sample` | what a configuration file means |
| `admission`, `net` | who may open a connection, and who is banned |
| `preauth` | how long a client may take to log in |
| `authorized_keys` | which keys are in force, and when the key file is read again |
| `sshd` | who may log in, and how the SSH protocol is set up |
| `session`, `env` | what a client that has logged in may ask for |
| `process` | how a session's process is started, fed and drained |
| `executor` | the messages between the two processes of the daemon |
| `sftp` | handles and paths of file access |
| `paths`, `windows_paths`, `platform_paths` | paths as Unix and Windows read them |
| `native_paths` | paths that are not Unicode, as text |
| `sandbox` | the restrictions of the process that reads from the network |
| `log_limiter`, `metrics`, `logging` | what is logged and counted |
| `windows_service_runtime` | the life of the daemon as a service |
| `text`, `time`, `bytes` | what the others are made of |

Facts that hold across functions are proved as proof functions whose names begin
with `law_`, each next to what it speaks of.

Other crates are called through a few trusted items, each with a doc comment
that says what is taken for granted about the call.
