# mlkem_ot

Random oblivious transfer from ML-KEM-1024, verified with Verus.

- `src/` is the library. `codec` and `vector` hold the byte form and the arithmetic of
  vectors, `xof` and `sample` the sampling of pseudorandom vectors, `generator` the source
  of randomness, `kem` the calls into the key encapsulation mechanism, `oracle` the
  derivation of keys, `receiver` and `sender` the two sides of the protocol, and `laws`
  what holds of the protocol as a whole.
- `tests/` runs the library.
- `app/` carries the messages over a network connection.

The library takes the random oracle and a seeded generator as arguments, and the messages
as values, so it does no input or output itself.
