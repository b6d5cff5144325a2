# unidpp-gateway

The UniDPP interop gateway: it renders a neutral-core product passport in
foreign protocol shapes and imports it back from them. The library is written
in Verus; every function of it is verified against its contract.

## Layout

- `src/` the verified library
  - `untp` the UNTP verifiable-credential triad: render and stub parser
  - `ingest` the import direction: one subject, one passport
  - `en18222` the EN 18222 REST render, full and compressed
  - `verdict` freshness, trust markers, signatures, the verdict and its coverage
  - `source`, `fixtures` who answers for an identifier
  - `feedback`, `scan`, `window` the report channel, scan tokens, rate windows
  - `api`, `discovery`, `reply` the reply to each request
  - `json`, `text`, `canonical`, `model`, `clock` what these are written in
- `app/` the service: HTTP, the journal on disk, the calls into the core crates
- `tests/` tests of the library

## What is stated

Each public function says in its `ensures` what it returns or changes, over
spec functions on sequences, maps and JSON documents; where a clock, a user's
admission control or a user's crypto slot decides, it says what holds of every
decision. The properties that span functions stand as public proof functions
named `law_*`: that a render reads back as the identity it was made of, that
both representations of the EN 18222 render agree throughout, that a journal
replays, and, over histories of calls, which requests a rate window admits,
which scan tokens live, which number a report gets and that a subject has one
passport; and others.

What is trusted without proof: `serde_json`'s tree, its compact text and its
reader; `std`'s Unicode character classes and case mapping, the debug form of a
text, and its monotonic clock.

## Configuration

| variable | meaning |
|---|---|
| `UNIDPP_GATEWAY_BIND` | listen address, default `127.0.0.1:8094` |
| `UNIDPP_ISSUER_URL` | issuer upstream (alias `UNIDPP_GATEWAY_ISSUER_URL`) |
| `UNIDPP_GATEWAY_TIMEOUT_MS` | upstream timeout, default 2000 |
| `UNIDPP_GATEWAY_FEEDBACK_JOURNAL` | report journal; absent: in memory |
| `UNIDPP_GATEWAY_FEEDBACK_RATE` | reports per identifier and minute; 0 or absent: no limit |
| `UNIDPP_GATEWAY_ADMIN_TOKEN` | bearer token of the report listing |
