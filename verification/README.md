# webservices

Request-handling logic of six small web services, with its contracts proved.

- `src/text.rs` — character search and decimal numerals (writing and canonical reading).
- `src/booking_format.rs` — the line-oriented booking format: blocks between `===`
  lines, lines recognised by three regular expressions (`regex`), values cut out
  between the first and the last quote.
- `src/tour_confirm.rs` — a tour store whose deletion takes a request and a confirmation.
- `src/clock.rs` — instants, RFC 2822 dates and the clock (`chrono`).
- `src/cache_validation.rs` — entity tags (`etag`) and the `304 Not Modified` decision.
- `src/tour_cache.rs` — a tour catalogue with `Last-Modified` times and a weak `ETag`.
- `src/flight_booking.rs` — flight bookings under ids `1`, `2`, ... given out in order.
- `src/payments.rs` — payments registered once per order after a card validation.
- `src/balancer.rs` — the order in which a load balancer tries its remotes.

`app/` holds the HTTP servers (`axum`), the gRPC handlers (`tonic`) and the
remote probing (`reqwest`) around the library; `tests/` runs the library on
concrete requests.
