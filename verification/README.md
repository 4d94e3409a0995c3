# evm_types

Signed 256-bit integers for EVM precompiles, and the call input of Ethereum JSON-RPC
requests, verified with Verus.

- `src/uint.rs`: `U256`, four 64-bit words with their value as a natural number, the
  bit-level specifications (bitwise operations, one bits, bit length), and the bit counts
  of a word.
- `src/outside.rs`: the trusted wrappers around `sp_core::U256` (addition, multiplication,
  division, powers, shifts, bitwise operations, bytes, text).
- `src/i256.rs`: `I256`, two's complement over `U256`, with its checked, overflowing,
  saturating and wrapping arithmetic, shifts and bit queries.
- `src/convert.rs`, `src/ops.rs`, `src/order.rs`, `src/fmt.rs`: conversions to and from
  primitive integers, the operator traits, the order, and the text forms.
- `src/laws.rs`: properties that tie the operations together.
- `src/call_input.rs`: the `input`/`data` fields of a call and the rule that picks one.
- `app/lib.rs`: the serde shapes of the requests and the JSON-RPC error.
