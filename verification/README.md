# obliquery

Verified building blocks for running public queries over private inputs held by
several data owners, with three computing parties and replicated secret sharing.

- `src/rss3/` — three-party replicated secret sharing: arithmetic shares in the ring of
  integers modulo 2^63 (`share`, `reconstruct`, `add`, `sub`, `mul`), XOR shares of
  64-bit words, of single bits and of bit vectors (`share`, `reconstruct`, `xor`, `and`,
  `not`, `equal`). Each module states what every operation computes and proves the laws
  of the scheme: a sharing reconstructs to its secret, and the operations on sharings
  agree with the operations on the secrets. The one exception is `equal` on bit vectors:
  it compares the lowest bit of the two words only, so it reports whether the words are
  equal just when they agree above that bit.
- `src/share_storage.rs` — the shares a party has received, indexed by
  `(protocol, step, party)`.
- `src/net.rs` — decisions a party takes while running the protocol: which shares it
  still has to send, how a received message changes what it has seen, when it is done,
  and when the secret can be reconstructed from stored shares.
- `app/` — the networked party: message exchange, printing, the protocol loop.
