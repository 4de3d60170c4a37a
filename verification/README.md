# syno-clean

A terminal UI for reviewing and cleaning up **Synology Download Station** tasks, one that
deletes the downloaded **files** along with the DSM task. It is a plain HTTP client for the
DSM API; nothing is installed on the NAS.

Deleting files is irreversible, so everything that decides what is deleted, when, and what
is said about it stands in a library verified with [Verus](https://github.com/verus-lang/verus):

| Module | What it decides |
|---|---|
| `delete` | Which path a task's data is at, what is refused, the phases of a delete |
| `executor` | The phases of one item, reply by reply; the files go before the task |
| `event` | The readings of the existence check and of the pause, batch reports, the poller |
| `app`, `view`, `keys` | Application state, key handling, sorting, filtering, the window |
| `api` | Requests, the response envelope, version negotiation, the session renewal |
| `model`, `json`, `number` | Tasks as DSM lists them, and the lenient readers of their fields |
| `config`, `cli` | The configuration layers and their merge, paths, the session cache |
| `error`, `format`, `text`, `table` | Texts of errors, rendering, wrapping, containers |
| `testutil` | A sample task list |

Each function states its result exactly; the public `law_*` proof functions state what holds
across functions. Functions marked `external_body` call an outside crate and say in their
comments what is taken for granted about it.

`app/` is ordinary Rust around the library: the command line, files, HTTP, the background
tasks and the terminal. `tests/` runs the library.

## Usage

```sh
syno-clean --host nas.local --user eduard            # flags are enough
syno-clean --host nas.local --user eduard --dry-run  # look before you leap
```

Precedence: command-line flags, then `SYNO_CLEAN_*` environment variables, then
`~/.config/syno-clean/config.toml`, then the defaults. The password is never stored; it comes
from `SYNO_CLEAN_PASSWORD` or a prompt. `?` inside the program lists the keys.
