# vex_core

The core of a cryptocurrency exchange — limit order books, risk checks, shard routing,
event publication plans and configuration — written in Verus. Each public function has a
contract, and Verus proves that the code meets it.

## Layout

- `src/model.rs`: commands, orders, trades, balances and market specifications.
- `src/level.rs`, `src/side.rs`, `src/book.rs`: a price level (FIFO queue), one side of the
  book (levels in price priority) and the order book with its order index.
- `src/laws.rs`, `src/index_laws.rs`: the laws of the order book: conservation of size,
  limit and price priority, time priority, fill-or-kill, the status of
  good-till-cancelled orders, the completion flags of trades, cancel undoing a resting order,
  and the agreement of the order index with the book. `src/config/vex.rs` proves that the
  defaults of every environment validate.
- `src/risk.rs`: balances, funds held for new orders and settlement of trades.
- `src/router.rs`: the matching stage of a shard: which commands it handles and how.
- `src/events.rs`: which messages a processed command publishes, in which order.
- `src/engine.rs`: shards of the pipeline and the choice of CPU cores.
- `src/journaling.rs`: the journaling stage and replay.
- `src/config/`: environments, networking, logging, symbols, balance preload and the loader's
  decisions (file formats, search paths, environment variable prefixes, fallbacks).
- `src/tables.rs`: the hash maps of `hashbrown` that the engine keys by market and user.
- `app/`: the program around the library: reading and writing configuration files, the
  environment, and startup.
- `tests/`: tests run against the compiled library.
