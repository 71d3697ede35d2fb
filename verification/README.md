# bwb_stellar

Verified logic of a regulated real-estate token platform on Stellar/Soroban:

- a KYC whitelist of approved investors, governed by an admin (two-step
  handover) and an optional operator;
- the offering token (SEP-0041 interface) that only approved investors may
  receive or send, minted by the admin or operator within the authorized
  offering cap, freezable by the admin;
- the registry of periodic yield distributions (payouts not yet available).

## Layout

- `src/` — the library, verified with Verus.
  - `address.rs`: ledger identities and maps keyed by them.
  - `balance_sum.rs`: sums of balances and how they move.
  - `ttl.rs`: storage lifetime policy.
  - `kyc_whitelist.rs`: the whitelist: abstract state, transitions, contract state, laws.
  - `token_model.rs`: the token's abstract state and the effect of each call.
  - `real_estate_token.rs`: the token's executable state, refining `token_model`.
  - `token_laws.rs`: properties of the token that span calls.
  - `compliance.rs`: how the whitelist gates the token.
  - `distribution.rs`: the distribution registry.
- `tests/` — tests of the library.
- `app/` — the Soroban contracts: they load state from ledger storage, let
  the library decide, and perform authorization, storage writes, lifetime
  extensions, cross-contract queries and events.

Each state-changing call of the library returns either the event to
announce or the reason for refusal, which the contracts turn into the abort
message; a refused call leaves the state unchanged. Facts that only the
ledger knows (the whitelist's answer for an address, the ledger sequence
and timestamp) are arguments of the calls.
