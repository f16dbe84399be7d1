# portrelay

A protocol-agnostic TCP relay. Each configured listener forwards to exactly one upstream target
that an administrator chose; bytes are passed on without being parsed.

The decisions of the relay are a library that is verified with [Verus](https://github.com/verus-lang/verus):
what the program does is stated in `requires` and `ensures` contracts and proved. Sockets, files,
timers and signals are ordinary Rust around it.

## Layout

`src/` is the verified library.

| Module | What it holds |
| --- | --- |
| `cli` | the options of `serve` and the rules that their values keep |
| `config` | settings, relay mappings, and the rules that valid settings keep |
| `load` | settings from the command line and from configuration files |
| `endpoint` | `HOST:PORT` texts |
| `duration` | spans of time, read with `humantime` |
| `metrics` | counters, histograms, and their Prometheus text |
| `seconds` | seconds as decimal texts, rounded as doubles are |
| `http` | the metrics endpoint: requests, bearer tokens, answers |
| `relay` | target resolution, buffer pools, and the states of a proxied connection |
| `server` | admission limits, connection numbers, start and end of the process |
| `error`, `paths`, `text` | errors, file paths, and character-level helpers |

`app/` is the program: command line, TOML files, logging, sockets and TLS. `tests/` run the
library.

## What is proved

Contracts say exactly what each function returns and when it fails, with the text of each error;
where a text comes from `humantime` or from Rust's `{:?}`, it is the text that the call gives,
by name. Public proof functions state what holds across functions, for example:

- `config::valid_settings_are_sound`: settings pass validation exactly where limits and timeouts
  are positive and no two relays share a name or a listener address.
- `server::shared_limits_count_connections`: however many connections share admission limits, as
  much is in use as connections are live, and all of it is given back.
- `relay::connections_close_once`: every connection is counted as closed exactly once.
- `relay::directions_keep_bytes`, `relay::backends_deliver_the_same_bytes`: the destination gets
  the bytes of the source, whatever forwards them and in whatever pieces.
- `http::refused_clients_learn_nothing`, `http::bearer_headers_authorize`: who gets the metrics.
- `metrics::labels_read_back`, `metrics::descriptions_come_once`: the exposition text can be read
  unambiguously.

A few calls are trusted: `humantime::parse_duration`, `subtle`'s constant-time comparison, and
some functions of the standard library. Each is wrapped or declared in one place, with a comment
that says what is believed of it.
