# MarketState Codex connector

A small desktop service that lets one MarketState user reach the Codex command
of the computer it runs on. It listens on `127.0.0.1:8765` only. The first user
whom the account service confirms claims the installation; everybody else is
answered with `403 Forbidden` until the owner is unlinked.

## Layout

- `src/` is the library: everything that the connector decides, verified with
  Verus. It reads requests from bytes, judges who may ask, routes, builds the
  call of Codex, follows its run and writes the answers.
- `app/` is the desktop application around it: sockets, files, processes,
  threads and the window.
- `tests/` runs the library.

## What is proved

- How a stream of bytes is cut into chunks makes no difference to the request
  that is read from it, within the limit on headers, nor to what is said where
  the stream ends too early.
- Every protected request is authenticated, and only with a token that the
  account service confirmed.
- Once there is an owner, it stays the same until it is unlinked, and unlinking
  needs Codex to be signed out.
- Only origins that the connector knows may read an answer; a request for
  another host or from another origin is refused before anything else.
- Codex always reads its message from its input; a new session may only read,
  unless the request asks for more; a run is killed once its time is over, which
  is after an hour at the latest.
- A response reads back as it was written, and so does the preference that was
  saved. The record of the owner holds the identity and the email address, and
  nothing else.

What `serde_json`, `uuid` and a few functions of the standard library do is
stated, not proved, at the functions that call them, in `src/codec.rs`,
`src/ids.rs` and `src/text.rs`.
