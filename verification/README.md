# myth

The verified core of *stare-decisis*, a hook layer around an agent CLI in
which past tool failures become binding precedent: failures are classified,
normalised into lesson identities, and fed back as context, and a wave-based
orchestrator runs tasks in parallel worktrees.

The library in `src/` is written in Verus; every function carries a
`requires`/`ensures` contract that Verus proves.

## Layout

- `src/hooks/` — hook envelope types, hook results and their exit codes, the
  Tier 0 failure classifier, the Variant B template, the observability
  records, and the per-hook decisions (brief injection, verdict mapping).
- `src/identity/` — aggressive normalisation and the Tier 1 hash, lapse
  scoring, the `vectors.bin` header codec, the row index of the vector
  store, and the disabled Tier 3 judge.
- `src/orchestrator/` — plan validation, outcome ordering, execution reports,
  watchdog steps, merge reading, concurrency and timeouts.
- `src/runtime/` — CLI version parsing and compatibility, quota detection,
  task results, the child's arguments and environment, sessions.
- `src/calendar.rs` — Unix milliseconds as ISO 8601 UTC text on the
  proleptic Gregorian calendar.
- `src/text.rs`, `src/bounded.rs`, `src/numeric.rs`, `src/json.rs`,
  `src/pattern.rs`, `src/common.rs` — shared string, UTF-8 budget, number,
  JSON, regex and identifier helpers.
- `app/` — the process side: envelope parsing, output, files, git, tmux, the
  child process, and floating-point similarity. It makes no decision of its
  own.
- `tests/` — executable tests of the library.

## Properties proved beyond the function contracts

- a validated plan has unique, non-empty task ids and no file shared within a
  wave;
- succeeded and failed tasks add up to all tasks of a report;
- a wave's outcomes come back sorted by task position and as a permutation
  of what the workers returned;
- a tool is blocked exactly when the recorded verdict is deny;
- Critical lessons never lapse, and lapsing is monotone in time and misses;
- the `vectors.bin` header decodes to what was encoded;
- upserting and deleting rows keep the index well formed and change the
  stored contents exactly as a map insert and remove;
- a version's display text parses back to that version;
- text cut to a byte budget fits it and is a prefix (plus marker) or suffix
  of the input.
