# funding_bot

A cross-venue funding-spread bot whose decision core is verified with Verus.

## Layout

- `src/` — the verified library:
  - `funding_cycle_lock`, `lock_typestate`, `cycle_lock`: the funding-cycle
    lock (one direction and notional per funding cycle), its typestate form
    and the per-symbol registry the tick loop enforces every decision through;
  - `fsm_controller`, `risk/` (heartbeat, watchdog, kill switch, threshold
    rules, stack): the mode controller and the guards with worst-wins
    composition;
  - `decision` (pair orientation and best-pair choice), `scoring` (regime
    and admission rules), `fair_value`, `metrics` (histogram buckets), `nav`
    (position events): the rules of the floating-point strategy layer,
    stated on binary64 encodings;
  - `adapter_health`, `backpressure`, `chaos`, `rate_limit`, `execution`
    (signers, order ids, retry policy and retry decisions), `adapters`
    (credentials, endpoints, status and envelope rules), `pacifica_sign` and
    `json` (canonical signed-message bytes), `tracing_redact`, `live_gate`,
    `symbols`, `tick`, `signal`;
  - `binary64`: the encodings through which the library carries the
    floating-point values it only stores, compares and rounds.
- `tests/` — tests of the library on concrete values.
- `app/` — the executable: command line, HTTP and file I/O, async plumbing,
  and the floating-point arithmetic (pricing, statistics, NAV in dollars,
  guard measures), calling the library for every decision it makes.
