# bot_camp

The decision logic of bot-camp, a self-hosted test server for crawlers
and scrapers, written in Verus: every page, header, redirect, rate
limiting verdict, honeypot ban and challenge answer the server gives is
computed by a function whose contract states it exactly, and the
properties the server promises across requests are proved as lemmas.

- `src/` is the verified library:
  - `rate_limit/` — the four algorithms (token bucket, fixed window,
    sliding window, minimum interval), client keys, allow and block
    lists, and the two-tier ban; `rate_limit/laws.rs` holds what they
    promise across requests.
  - `honeypot.rs`, `challenge.rs` — the trap's bans and the JS
    challenge's cookie check and page.
  - `templates.rs` — the shared HTML page and its escaping.
  - `routes/` — what each endpoint answers.
  - `text.rs`, `http.rs` — text building blocks, and what the HTTP
    types accept.
- `app/` is the HTTP server around it (axum): it reads requests, calls
  the library, and writes responses; it also holds the JSON shapes and
  the dashboard's WebSocket feed.
- `tests/` exercises the library on concrete values.
