# apd

An AAuth Agent Provider: it gives agents a cryptographic identity. Agents enroll
a durable key, get agent tokens that bind a signing key to an identifier
`aauth:local@domain`, and sign every HTTP request. Others verify the tokens with
the published key set. The provider can also be the inbox for events that
resources send to its agents.

The library under `src/` is verified with Verus. The program under `app/` runs
it: it serves HTTP, keeps the store, fetches documents, draws randomness and reads
its files. What is answered, issued, stored and graded is decided in the library.

## Layout

| Where | What |
| --- | --- |
| `text`, `decimal`, `b64`, `json`, `table` | texts, numbers, encodings, JSON values, a map |
| `crypto`, `pki` | Ed25519, SHA-256, certificates: what other crates compute |
| `ident`, `jwk`, `anyjwk`, `jwt`, `tokens` | identifiers, keys, tokens and their claims |
| `sfv`, `sig`, `sigkey`, `roundtrip` | structured fields, HTTP message signatures |
| `config`, `keys`, `cli`, `random` | configuration, signing keys, command line, drawn values |
| `problem`, `router`, `reqctx`, `wellknown`, `httpc`, `telemetry` | requests, routes, answers |
| `storage`, `resp`, `records` | the store, the Redis protocol, what is kept |
| `enrollment`, `assertion`, `x509`, `issuer_keys`, `enroll_flow` | who may enroll |
| `agent`, `issue`, `token_flow` | agent tokens and sub-agent tokens |
| `admin`, `admin_auth`, `audit`, `revocation`, `revoke_flow` | administration, revocation |
| `events`, `jwks_cache`, `event_flow` | subscriptions and event delivery |
| `flow` | steps and outcomes of work that needs the outside |
| `client`, `check` | the client side, and a conformance run |
| `exchange` | the client and the provider together |

Work that alternates decisions with I/O is a flow: a verified function takes the
state and what happened, and gives the next state and the next thing to do.

The proof functions named `law_..` state what holds across functions. The
functions marked `external_body` call another crate; the comment above each says
what is relied on.
