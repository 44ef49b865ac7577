# token_authority

A verified mint-authority model for fungible tokens on an account-based
runtime, written in Verus.

- `src/account.rs` — account identifiers, account state, signer metadata and
  the post-states a handler returns.
- `src/approval.rs` — `Authority`: a single admin that is admitted, can hand the authority
  to a successor, or renounce it for good; `ApprovalError`.
- `src/codec.rs` — the byte layout of account data (little-endian integers,
  length-prefixed UTF-8 strings, identifiers, tagged options) with readers
  proved to undo the writers exactly.
- `src/token.rs` — `TokenDefinition` and `TokenHolding`, their stored form,
  and the round-trip laws of that form.
- `src/program.rs` — the four authority instructions (create, mint, rotate,
  revoke) with exact contracts, including which `ProgramError` answers each
  refused instruction, and the laws that relate them (minting after a
  revocation is refused, rotation hands minting over, minting adds the same
  amount to supply and balance).
- `app/` — panicking entry points in the form the guest runtime uses, and
  serde/borsh copies of the library types.

The tests under `tests/` exercise the library, including that its stored
form matches borsh's encoding.
