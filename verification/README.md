# swanky

Building blocks for two-party secure computation, with their behaviour
stated as Verus contracts and proved.

- `src/` is the verified library:
  - `error`: the common error type, its context messages and extension traits;
  - `party`: parties, party systems and values private to one party;
  - `channel`: the buffering of a network channel, which says what to do
    with the connection and never loses, duplicates or reorders a byte;
  - `serialization`: canonical fixed-size representations and sequences of them;
  - `block`, `aes_hash`: 128/256-bit blocks, AES-128 and correlation-robust hashes;
  - `authbits`, `leaky_and_triples`, `and_triples`: authenticated bits and
    shares, their opening, and the generation and combination of AND triples;
  - `f_eq`, `f_rand`: the equality check and the joint random seed;
  - `fancy`, `analyzer`, `garbling`: circuit interfaces, gate counting and
    garbling helpers;
  - `backend`: AES sizes and the Intel intrinsics the AVX2 back end may use.
- `app/` holds the I/O around it: a channel over any `Read + Write`
  connection, the message exchanges of the protocols, the serde shapes of
  the intrinsics document and the CPU feature check.
- `tests/` exercises the library on concrete values.
