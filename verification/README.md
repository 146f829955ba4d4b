# exchange

A spot exchange for BTC, ETH and SOL against USDT, with its core verified in
Verus.

- `src/` is the verified library: order books with price-time matching
  (`book`, `matching`, `delete`, `market`), user balances and the balance
  task's handling of requests (`balance`, `services`), the decisions of the
  HTTP front end (`api`), of the depth broadcaster (`ws`) and of the database
  writer (`poller`). Amounts are `rust_decimal::Decimal` values held as
  mantissa and scale (`amount`): `rust_decimal` reads, writes, compares,
  adds, subtracts and multiplies them, and the contracts say where its
  result is the exact one and name the rounded one otherwise. Book
  quantities (a level's total, an order's remainder) keep their exact value:
  `rust_decimal` computes them without rounding wherever some `Decimal` has
  that value, and only where none does is the order refused. `match_laws` and the `law_*` proof functions state
  what matching, cancelling and balance changes keep.
- `app/` holds the four programs around it (`engine`, `router`, `db-poller`,
  `ws`): Redis streams, Postgres, actix-web and WebSocket I/O, and the JSON
  forms of the messages.
- `tests/` exercises the library on concrete values.
