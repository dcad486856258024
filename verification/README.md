# des

DES on single 64-bit blocks (no modes of operation), written in Verus and verified.

- `src/tables.rs`: the permutation, expansion, selection and shift tables, with the facts
  about them that the proofs use (entries in range, IP and IP^-1 inverse to each other).
- `src/bits.rs`: the bit model: `des_bit` numbers bits from the left as DES does, and
  `permuted` is the value a selection table makes of its input.
- `src/permute.rs`: the five bit-selection loops, the initial permutation and its inverse.
- `src/key_schedule.rs`: rotation of the 28-bit registers and the 16 round keys.
- `src/cipher.rs`: the cipher function f (expansion, key addition, S-boxes, P).
- `src/feistel.rs`: enciphering and deciphering a block, and the proof that deciphering
  with a key schedule undoes enciphering with it, for any 16 round keys.
- `src/text.rs`, `src/kat.rs`: reading files of known-answer tests and running them.
- `src/demo.rs`: one block enciphered and deciphered under a given key, and its bits shown as rows.
- `app/`: the command line (`des` draws a random key with `rand` and runs the demonstration, `des kat <dir>` runs the test files).
