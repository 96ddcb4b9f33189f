# neqo_glue

What stands between an HTTP/3 connection and the browser that embeds it, and the servers that
HTTP/3 and WebTransport are tested with. The library holds the decisions; it is written in Verus,
and every function has a contract that is proved.

- `src/` is the library.
  - `conn`, `io`, `events`, `errors`, `headers`, `cert`, `codec`, `metrics`, `address`, `probe`:
    what the embedder asks of a connection and is told of it.
  - `mcquic`, `mcrx`, `moq`: multicast channels, the receiver of multicast packets, and the
    messages and objects of media over QUIC.
  - `server`: the test servers. `requests` and `sessions` say how a request and a session are
    answered, `test_server` and `webtransport` keep what lasts longer than one event, `scenario`
    and `channel` play a multicast scenario, and `reverse_proxy`, `forward` and `connect_proxy`
    hand requests on.
  - `bytes`, `text`, `thin`, `nsresult`: what the others are made of.
- `tests/` runs the library on concrete values, with the crates that it calls.
- `app/` is ordinary Rust around the library: the program that starts the servers, the sockets,
  and the functions that the embedder calls.

Streams, sessions and connections are numbers in the library, and moments in time are numbers of
nanoseconds; `app/` knows what they stand for. Where an operation of the outside world can fail or
take less than it was given, the library says what to do, `app/` does it and reports what came of
it, and the library goes on from there.

The functions marked `external_body` call other crates (`base64`, `http`, `thin-vec`, `uuid`,
`zlib-rs`) and the standard library; their contracts are believed, and their comments say what
they claim.
