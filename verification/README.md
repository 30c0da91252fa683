# finance

Personal finance and knowledge-bank tooling around the Dzengi broker API,
with its decision logic verified by Verus.

## Layout

- `src/` — the verified library.
  - `investment/` — Dzengi symbols and trade pairs, REST query strings and
    request signing, WebSocket frames, price watches (validation, storage
    codes, cooldown), the alert evaluator's cycle planning, Telegram
    delivery and command handling, configuration resolution, and secret
    redaction.
  - `analysis/` — which research blocks a request wants, how requested
    symbols match book rows, provider URLs and reply selection, and the
    earnings calendar's window rules.
  - `expenses/` — categories, report totals per category / month, chart
    requests, and the calendar windows of the listings.
  - `knowledge.rs` — the knowledge bank's draw, review and affinity rules.
  - `text.rs`, `num.rs`, `url.rs`, `json.rs` — string, number, URL-encoding
    and JSON-value helpers with their specifications.
- `tests/` — executable tests of the library.
- `app/` — the `finance` command-line program: HTTP and WebSocket clients,
  SQLite storage, the background workers, the HTTP routes, chart rendering,
  and everything computed in floating point (holdings, P/L, weights,
  technical indicators).

Verify with `verus` on `src/lib.rs`; the program is built against the
library as an ordinary crate.
