# sp1_to_snarkjs

Converts an SP1 Groth16 artifact (`proof.bin`) into snarkjs `proof.json`,
`public.json` and `verification_key.json`, after checking the proof with arkworks
against the Groth16 verifying key that SP1 ships.

The library under `src/` is written in Verus. Its functions carry contracts that
Verus proves, except the small trusted wrappers around outside crates (marked
`#[verifier::external_body]`), whose contracts are taken on trust:

- `sp1.rs`: the SP1 artifact model, the selection of its Groth16 wrapper proof
  (version `v6.1.0`, no TEE proof, not a mock proof), the extraction of the 256
  proof bytes behind the 96 bytes of metadata (which must encode public inputs 2 to
  4), and the gnark point, proof and verifying-key layouts.
- `export.rs`: the whole conversion and its outcome, step by step.
- `snarkjs.rs`: the snarkjs rendering of points, proofs and keys.
- `curve.rs`, `field.rs`, `codec.rs`: points and field elements as canonical
  integers, decimal and big-endian renderings, hex decoding and comparisons.
- `groth16.rs`: the calls into `sp1-verifier` and arkworks, and the bytes of the
  verifying key that SP1 ships.
- `load.rs`: what a proof file holds, from its size and its two decodings.

Calls into outside crates (arkworks, `hex`, `sp1-verifier`) stand behind those
trusted wrappers; each one's doc comment says what the outside code is taken to do.

`app/` is the command-line program: it reads the proof file and decodes it with
bincode, lets the library decide what it holds, runs the conversion and writes the
JSON files, optionally running `snarkjs groth16 verify` on them.
