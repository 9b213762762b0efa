# ccline segments

The logic of two status-line segments, verified with Verus.

- `src/text.rs` — trimming, prefix tests, decimal rendering, a lexicographic
  order on strings (proved total) and a sort by it.
- `src/settings.rs` — the debug switch, the choice of settings file, the
  resolution of `ANTHROPIC_BASE_URL` / `ANTHROPIC_AUTH_TOKEN`, endpoint URLs.
- `src/clock.rs` — RFC 3339 timestamps and the clock, through chrono.
- `src/model.rs` — the pricing list, its cache and the stepwise pricing lookup.
- `src/quota.rs` — the quota answer: display name, count units, details.
- `src/segment.rs` — what a segment hands to the status line.
- `app/lib.rs` — environment, files, HTTP, JSON and float formatting around it.
