# anoma

Verified host-side logic of the ledger's validity predicates, written in
Verus.

- `src/gas.rs`: the gas meter of a validity predicate run and the laws of
  charging it (gas only grows; running out of gas is permanent).
- `src/storage.rs`: storage keys and their byte order, the committed storage
  (kept sorted by key), its reads with their gas costs, and prefix iteration.
- `src/write_log.rs`: the block's and the transaction's write logs.
- `src/native_vp.rs`: the `NativeVp` trait and `Ctx`, the host context of a
  native validity predicate, whose reads charge the gas meter; each read is
  specified by a spec function, and the laws relating the reads are proved
  there.
- `src/borsh_de.rs`, `src/types.rs`: Borsh decoding of the primitive fields,
  signatures, addresses and amounts, over calls into the `borsh` crate.
- `src/eth_bridge.rs`, `src/tx_unbond.rs`: decoding of the Ethereum bridge's
  payloads and of the unbonding transaction's data.
- `app/`: the error type with its `thiserror` impls, typed reads that decode
  with a caller-chosen `BorshDeserialize` impl, and the unbonding
  transaction's entry point over a host environment.
- `tests/`: tests of the library on concrete values.

The evaluation of another validity predicate from a native one runs it in
the ledger's WebAssembly VM, which this crate does not have; only its
decision, that a failed run counts as a rejection, is here, as
`native_vp::eval_verdict`.
