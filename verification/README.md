# aincrad

Verified core of an XDP firewall.

- `src/firewall.rs` — frame classification (minimum size, IPv4/TCP, guarded
  port, case-insensitive signature scan of the payload), the per-source
  decision (ban check, token bucket, banning), and `Firewall`, which keeps the
  rate-limit and reputation tables and runs one frame at a time.
- `src/balance.rs` — the score-based variant of the kernel program.
- `src/headers.rs`, `src/bytes.rs` — header layouts and integer reads.
- `src/common.rs` — records shared with user space (`FilterEntry`,
  `ReputationRecord`).
- `src/loader.rs` — decoding and counting of the reputation table in user space.
- `src/history.rs` — the dashboard's one-hour block history.
- `src/laws.rs` — properties across steps (bans hold until they expire,
  exhausted buckets drop, pruning keeps exactly the last hour, ...).
- `app/` — the controller (loading and attaching the program, the status
  loop), the kernel-side map and clock glue, and the dashboard.
