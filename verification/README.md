# redfolder

Blackouts around economic news for trading bots: which releases a worker watches, when it must not
trade, and when it is told so.

`src/` is the library. It is written in Rust with [Verus](https://github.com/verus-lang/verus)
contracts, and every function of it is proved against its contract.

| Module | What it holds |
| :--- | :--- |
| `calendar`, `zone`, `time` | calendar events, and the instants their texts mean |
| `types`, `events`, `error`, `text` | currencies, impacts, windows, messages, errors, text |
| `config` | a worker's configuration, its presets, its builder, its validation |
| `curfew` | the weekend market close |
| `merge`, `engine` | from events to a worker's blackout windows |
| `guarantees` | what the engine promises as a whole, each promise a proof |
| `json`, `cache` | what is cached, and in what text |
| `client`, `fetch` | the client's settings, and what is done about each outcome of a request |
| `service`, `watch` | workers, their alerts, the life of the service, and the watch on the command line |

Promises that relate several functions are public proof functions whose names begin with `law_`;
they stand in `guarantees` and at the end of the module they are about.

The library does no input or output. `app/` is the program around it: the command line, HTTP, the
cache file, JSON, and the background tasks. Functions of other crates that the library calls (the
parsing of dates by `chrono`, the time zones of `chrono-tz`, JSON strings by `serde_json`, SHA-256
by `sha2`) stand behind small wrappers whose contracts say what is relied on.

`tests/` holds the tests of the library.
