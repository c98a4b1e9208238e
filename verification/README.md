# arbiter

A rule-driven process priority manager for Linux that works beside `sched_ext` schedulers. It
watches for processes that load a new binary, finds the first rule that matches, and adjusts
niceness, `oom_score_adj` and cgroup placement accordingly; `ionice` intent becomes the cgroup v2
`io.weight` where the rule selects a cgroup.

Everything that decides is a library written in Verus: each function carries a contract that the
verifier proves. What reads, writes, waits or listens is a thin program around it.

## Layout

- `src/rules/`: rule files (`lines`, `loader`), the data (`types`), validation and inheritance
  (`validator`), matching (`matcher`, `pattern`, `truncate`)
- `src/applier/`: what is done to a process, the steps of a cgroup move, IO weights
- `src/daemon.rs`: reaction to messages, reloads, retries while a process starts up
- `src/platform/linux/`: proc-connector messages, scheduler detection, capabilities
- `src/config.rs`, `src/cli.rs`, `src/app.rs`: settings, commands and what they print
- `src/text.rs`, `src/numbers.rs`, `src/order.rs`: text, number and ordering primitives
- `app/`: files, sockets, signals, and the formats that settings and rules are stored in
- `tests/`: tests of the library

Functions whose names begin with `law_` state what holds across functions: that the first match
wins, that a failed reload keeps the rules, that a move never leaves the user's scope.

## Trusted ground

The proofs rest on stated contracts of a few functions from outside: `regex` (compile, match,
clone), `serde_json` (parsing a line), and from the standard library `String::push`,
`char::is_whitespace`, `str::to_lowercase` and `u16::from_ne_bytes`. Each is declared next to the
code that uses it, with what is claimed of it.
