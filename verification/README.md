# polywatcher

A desktop watcher and order ticket for Polymarket football markets. The
library in `src/` holds the verified logic; `app/` holds the window, the
network feeds and the exchange calls.

- `src/text.rs` – trimming, lowercasing, substring search, hex text.
- `src/foreign.rs` – the trusted calls into alloy and uuid (key, address,
  UUID and 256-bit number parsing).
- `src/clob.rs` – credentials, loading them from environment values,
  authentication parameters, token ids, the portfolio-value query.
- `src/login.rs` – the login form: its checks, failure messages, the
  credentials a login yields and the `.env` file that saves them.
- `src/book.rs` – the order book of one token and how feed snapshots and
  price changes update it.
- `src/keyed.rs` – a keyed list in insertion order (events, tag labels,
  match updates, tags being loaded).
- `src/state.rs` – status log, league navigation, search and live status.
- `src/sports.rs`, `src/gamma.rs` – sports-feed filtering and Gamma queries.
