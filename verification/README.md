# sneaky_mouse

The event-processing core of the Sneaky Mouse cheese game server, verified
with Verus. The server reads game events (cheese spawns, requests,
collections, awards, despawns, debug lines) from redis streams, keeps the
spawned cheeses of each room, and writes users, cheeses, rankings and
announcements back to redis.

Layout:

- `src/` — the verified library.
  - `util.rs`: decimal text writing and reading, field lookup in events,
    currency checks, error report text.
  - `rules.rs`: the game's rules for awards, spawns, collections, the list of
    spawned cheeses and the daily reset.
  - `db.rs`: stored users and cheeses: keys, the commands that write them and
    how their hashes are read back.
  - `com.rs`: the announcements written to the output streams, and when to
    try again to connect to the database.
  - `pipe.rs`: the commands queued for the next database round trip.
  - `event.rs`: the procedures for an incoming event, the periodic update and
    the shutdown, as step functions: each turn returns an action (a round
    trip, a float computation, the end) that the application performs.
  - `inbox.rs`: the requests that read the event streams and the reading of
    their replies.
  - `http_server.rs`: the control HTTP server's request line, answer and
    response.
- `app/main.rs` — the program: redis connection, the clock, the main loop,
  the floating-point arithmetic and the control server's sockets.
- `tests/` — tests of the library on concrete values.
