# switchyard_route

Routes chat completion requests to a weak or a strong model tier. A judge
classifies a turn unless the session floor already answers it; the tier that
comes out selects a cluster and the `model` field of the request body.

`src/` is a Verus library. It holds the decisions: configuration rules, session
keys, the session store, the judge callout as a state machine, body rewriting,
and what a failed turn turns into. Each function states what it returns or
changes, and the laws of the library (functions named `law_..`) are proved from
those statements: a session that reached Strong stays Strong, fallbacks are
never stored, a rejected or unrouted request is left as it was, the store never
outgrows its capacity.

`app/` wires the library to the proxy: the HTTP filter, YAML, the environment,
address lookup, sub-requests and the classifier run.

`tests/` runs the library.

## What is trusted

The library calls `http` and `serde_json` behind small wrappers whose contracts
are taken from those crates: `uri.rs` (URI parsing), `headers.rs` (header values
and maps), `json.rs` (parsing, rendering, integers), `judge.rs` (number cloning). Of
std it trusts `str::trim` on ASCII (`session.rs`), and the debug rendering of
strings and `String::from_utf8_lossy` (`text.rs`).

## What the caller hands in

Times are nanoseconds on one monotonic clock. The configuration takes the value
of the token variable and the byte order of the machine, which the hashes of
session keys follow.
