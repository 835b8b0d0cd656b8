# hs_tracker

Session tracking for Hero Siege, verified with Verus: how the game's packets
are put back together and read, how a session counts what they say, and the
lines of the status a chat client shows for it.

## Layout

- `src/` — the verified library.
  - `reassembly` — TCP payloads buffered per flow and ack, flushed when the
    ack moves on, with the unterminated tail of a flush carried to the next.
  - `capture` — the messages in a flushed buffer: every JSON value that
    closes in it, and, segment by segment, base64 blobs and query strings.
  - `json`, `fields`, `parser`, `messages` — the JSON model, field lookups,
    and the reading of a message into game events.
  - `catalog` — the game's item and room tables, as the library sees them.
  - `stats`, `session`, `events`, `finds`, `apply`, `report`, `live` — the
    session: what each event does to it, its clock, and what the panels show.
  - `presence` — the lines of the status.
  - `laws` — what holds across operations, proved.
  - `wire`, `clock`, `text` — the calls into `serde_json`, `base64`,
    `form_urlencoded` and `std` that the library makes, each behind a
    contract.
- `tests/` — the tests, run against the compiled library.
- `app/` — the unverified rest: the status thread talking to the chat
  client's pipe, the short number format, and the glue from a captured
  payload to the session's counters.
