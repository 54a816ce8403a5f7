# surfpool-jito

Jito bundles for a local ledger: `sendBundle` and `simulateBundle`.

A bundle is a list of one to five transactions with different first signatures. Sent, it is first
tried out on a copy of the ledger, each transaction on what the one before it left. Only if all of
them succeed are they executed on the ledger; otherwise the bundle is rejected and the ledger is
what it was. Should a transaction fail on the ledger after a clean trial, the ledger is put back to
what it was before the bundle. Simulated, a bundle is only tried out.

A sent bundle is written in Base58, or in the encoding that its options name, `base58` or `base64`.
A simulated one may use either.

## Layout

- `src/`: the verified library.
  - `rpc`: which requests are taken on, and the replies to the others.
  - `transaction`, `bundle`: reading transactions from Base58 or Base64 text, what makes a list of
    them a bundle, and the bundle's ID.
  - `submission`, `simulation`: what to do next, and the reply in the end, given the outcomes so
    far. `ledger` holds the steps that are asked for and what is reported of an execution.
  - `run`: requests carried through from end to end, on any ledger; `laws`: what holds of them.
  - `base58`, `base64`, `hex_text`, `decimal`: what texts mean.
  - `outside`: the calls into other crates, each with what is taken from it on trust.
- `app/`: the JSON-RPC service. It locks the ledger, takes the steps that the library asks for and
  reports the outcomes back.
- `tests/`: the library on its own, and on a real ledger.
