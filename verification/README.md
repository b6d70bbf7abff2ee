# agent_gateway

The rules of an mTLS CONNECT gateway, and of the sidecar that talks to it,
with proofs.

The gateway lets a client reach a destination only if a signed permission says
so: the client's certificate holds an identity, a registry holds permissions
for that identity, its key and the destination, and a permission counts when
its signing key is active, its signature is good and the key may delegate the
destination. `policy` decides that; `policy_laws` states what every evaluation
comes to.

| Module | What it says |
|---|---|
| `destination`, `endpoint`, `address`, `number`, `text` | how destinations and endpoints are written and read |
| `certificate`, `tls` | which certificates and PEM files are accepted, and whose they are |
| `timestamp`, `permission`, `registry` | what a signature covers, and whether it is good |
| `policy`, `proxy` | who may go where, and what the gateway replies |
| `bridge`, `identity`, `der` | what the sidecar sends, and how it presents a key in a TPM |
| `rate_limit` | which limiter an identity has, and what waits for it |
| `config`, `observability` | which settings are valid |

A module `x_laws` states and proves what holds of `x` as a whole.

Outside crates are called through small functions whose contracts are taken
on trust; a doc comment on each says what it claims. Sockets, files, the
database and the TPM are in `app/`, which drives the rules step by step.
