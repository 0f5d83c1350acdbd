# locutus_stdlib

The data that crosses the border between a contract host and the WebAssembly contracts it runs,
verified with Verus.

- `src/state.rs`, `src/code.rs`, `src/contract.rs`: parameters, states, deltas, summaries, code and
  contracts, and how a contract is read from framed bytes.
- `src/key.rs`, `src/digest.rs`, `src/base58.rs`, `src/numeral.rs`: the keys of contracts, the digest
  they are made of, and their Base58 text.
- `src/msgpack.rs`, `src/decode.rs`, `src/related.rs`, `src/update.rs`: the values that clients send
  and what is decoded from them.
- `src/interface.rs`, `src/wasm_interface.rs`: the functions of a contract and their results.
- `src/display.rs`, `src/bytes.rs`: text forms and byte slices.

The functions named `law_..` state what holds of several functions together.

`app/` adds what is outside the verified part: serialized forms, the MessagePack decoder's values,
and raw memory.
