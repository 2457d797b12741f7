# Director Brain

A coordinator for coding agents keeps tasks, agents, sessions, handoffs and
checkpoints, and observes what really happened in git. This crate is its logic,
written in Verus: every function states what it returns or changes, and the
statements are proved, given those of the few functions below that Verus takes on
trust.

- `src/domain` is the model: identifiers, tasks, agents, sessions, handoffs,
  checkpoints, recent context, observed repositories, working trees, events and
  snapshots.
- `src/adapters` is the logic of the substrates: one in memory, one behind a tool
  server (`handoff`), the line protocol that it speaks (`stdio_mcp`), git observation
  (`git`) and command execution (`executor`).
- `src/text.rs`, `src/time.rs`, `src/path.rs`, `src/order.rs`, `src/registry.rs`,
  `src/history.rs` and `src/digest.rs` hold what these rest on.
- `app` reads git, files and processes, talks to servers and serializes records. It
  hands readings to the library and carries out what the library decides.

What holds of the library as a whole stands in the proof functions whose names begin
with `law_`.

## What the proofs rest on

Some functions hand their work to another crate or to the standard library. What
they state is trusted, and the doc comment of each says what that is:

- `chrono`: `clock_reading`, `of_timestamp`, `to_rfc3339`, `parse_rfc3339`,
  `parse_naive` and `minutes_since` in `src/time.rs`. Of the clock only the range of
  its readings is stated.
- `sha2`: `sha256_digest` in `src/digest.rs`. That two inputs have two digests is not
  stated.
- `git2`: `oid_text` in `src/adapters/git/observer.rs`.
- `serde_json`: `member_of` in `src/adapters/handoff/adapter.rs`.
- The standard library: `String::push`, `debug_text` and `lowercase_text` in
  `src/text.rs`, `std::path::is_separator` in `src/path.rs`, and `text_of_bytes` in
  `src/adapters/executor.rs`. Whether a backslash divides paths is not stated: it
  rests on the platform.

Where the result takes too long to state it has a name (`sha256`, `rfc3339_text`,
`rfc3339_instant`, `naive_instant`, `json_member`, `debug_form`, `lowercase`,
`lossy_text`), and the statements speak of that name. `app` is not verified.
