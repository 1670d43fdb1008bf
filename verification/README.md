# cw3643

A permissioned security-token suite for CosmWasm chains (ERC-3643 / T-REX
style), with its logic verified by Verus.

- `src/` is the verified library. Each contract is a state type with a
  mathematical view, a well-formedness predicate, and one method per message,
  whose `ensures` states the new state, the response and, for every error,
  exactly when it is returned:
  - `token`: balances, allowances, roles, KYC, freezing, deny list, real-world
    assets with issuance and redemption requests, governance proposals, wallet
    recovery; the checks against the identity registry and the compliance
    contract are a resumable plan (`token::checks`), and the functions that
    move tokens require a plan that has passed; a batch transfer moves tokens
    on a copy of the balances and changes the token only when it commits;
  - `compliance`: per-address limits, allowed countries and modules;
  - `identity_registry`, `identity_registry_storage`, `onchainid`,
    `claim_topics_registry`, `trusted_issuers_registry`;
  - `factory`: the deployment of a whole suite, one reply at a time.
  Laws that span several calls are public proof functions (for example
  `token::laws`).
- `app/` holds the CosmWasm entry points: it loads and saves the state, turns
  chain messages into the library's values and back, and answers the queries
  to other contracts that the library asks for.
- `tests/` runs the library on concrete scenarios.
