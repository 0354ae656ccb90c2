# Chat store

A service that keeps MLS key packages by device and signed device lists by
account, so that a client can fetch a contact's key package without exchanging it
out of band. What it stores is opaque to it: it checks that the submitter holds
the key under which a bundle is published, and consumers verify again on
retrieval.

`src/` is the library, verified with Verus:

| Module | What it holds |
|--------|---------------|
| `encoding` | hex and base64, stated over byte sequences |
| `signing` | Ed25519 proof of possession |
| `bundle` | bundles: decoding, verification, what is stored, what is answered |
| `submit` | the same for submissions, whose messages name the key's field |
| `account_log` | append-only account logs and how one relates to another |
| `store` | the tables, anti-replay, retention |
| `history` | which receipts of a device a prune leaves |
| `table` | a table of rows with one row per key |
| `delivery`, `ingest` | messages off the delivery topics |
| `handlers` | the HTTP answers |
| `clock` | the wall clock |
| `laws` | what holds over several operations and in every state |

`app/` is the service around it: command line, HTTP, SQLite and the delivery
node. It keeps the rows in SQLite and asks the library what to do with them.

`tests/` run the library with the crates it calls.

What is not proved but relied on stands in `encoding`, `signing` and `clock`, next
to the calls into `hex`, `base64`, `ed25519-dalek` and the standard library's
clock.
