# chia-peer

A Chia wallet-protocol light client, with its decisions proved in Verus.

The client connects to full nodes, subscribes to coins and puzzle hashes, follows the peak and
reorgs, submits spend bundles, and serves its reads as a fail-closed chain source. It drives
[`chia-wallet-sdk`](https://crates.io/crates/chia-wallet-sdk), which speaks the wire protocol.

## Layout

- `src/` is the library. It holds no sockets, timers or locks: each function takes what happened and
  returns what to do or what it means, under a contract that Verus checks.
- `app/` runs it: TLS files, DNS, websockets, the background task, and the synchronous facade.
- `tests/` runs the library with the real protocol crates.

| module | what it decides |
|---|---|
| `cache`, `cache_laws` | the subscription cache: reorg rollback, peak moves, admission, room |
| `client` | how replies and pushed messages change a client |
| `provider` | what a read asks for and what it reports |
| `fetcher` | requests, replies, and paging within bounds |
| `tls`, `connect`, `ordering`, `address` | identities, candidates, IPv6-first dialing |
| `error` | what each failure is reported as |
| `bridge` | when a synchronous read may block |
| `protocol`, `bytes`, `id_map`, `config` | plain values and the maps that hold them |

## What is promised

- No cached coin is created above the peak, so a confirmation count never underflows; no reported
  confirmation is above the peak either.
- A peak report only advances the peak. Only an update that undoes subscribed state lowers it.
- What a peer pushes can neither plant coins nor subscriptions, nor grow the cache past its room. A
  paged read ends within fixed bounds on pages and coins. (What a peer answers to a subscription is
  cached as it comes.)
- Every failure is an error. An absence is reported only where a peer answered.
- Every candidate is dialed once, every IPv6 address before every IPv4 address.
