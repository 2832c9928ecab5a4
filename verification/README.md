# bbsplus

A BBS+ signature library over BLS12-381 (Dock's `bbs_plus`), with its logic
verified by Verus.

- `src/` is the verified library: status codes (`status`), protocol metadata
  (`protocol`), canonical strings and nationality codes (`utils`), the plain
  models of the C boundary's values and the readers that validate them
  (`types`), the per-position domain separation tags (`encoding`), the
  boundary with the outside cryptography (`crypto`), and the signing and
  proof pipelines (`bbs`).
- `app/` holds the C ABI (raw pointers, buffer ownership, panic capture) and
  the Node bindings; both read their inputs into plain values and call `src/`.
- `tests/` runs the library, the outside cryptography included.

## Behaviour against the original README

- Messages are padded: signing, verifying and proving with fewer messages
  than the parameters have slots fill the remaining slots with the sentinel
  `0xff || "bbsplus-padding-v1" || 0xfe`, each slot hashed under its own
  position. Revealed positions address this padded layout.
- More messages than the parameters have slots give `BBS_ERROR_TOO_MANY_MSGS`
  (status 8).
- Parameters are not derived from a fixed identifier: `bbs_generate_keypair`
  draws them at random for the requested message count, callers pass them to
  every operation, and `message_count` need not be 20. The original's own
  tests generate three-slot keys and pass parameters explicitly, and the fixed
  identifier is given nowhere, so this part of the README is not followed.
  For the same reason the Node `verifyProof` binding takes the serialized
  parameters as its first argument.
- A signature whose point `A` comes out as the identity (an event of
  probability one in the group order) is not handed out: signing reports
  `BBS_ERROR_CRYPTO` instead.
- `bbs_verify_proof` refuses more revealed entries than two past the
  parameters' slot count with `BBS_ERROR_VERIFY_FAILED`; the underlying
  verifier would otherwise panic on them (`BBS_ERROR_PANIC`) or fail.
