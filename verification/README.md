# solang (verified parts)

Parts of a Solidity compiler front end, written in Verus and proved against
their contracts:

- `src/eval.rs`: evaluation of constant expressions, over integers and over
  exact fractions, with the diagnostics that evaluation reports.
- `src/overflow.rs`: the overflow check of constant sub-expressions against
  the types they are given.
- `src/strings.rs`: the bytes that a string literal stands for, with the
  diagnostics for malformed escapes.
- `src/idl.rs`: Solidity interface text for an Anchor IDL.
- `src/idl_json.rs`: reading an Anchor IDL from its JSON text (the parse is
  `serde_json`'s into `anchor_syn`'s types, behind a wrapper) and the
  Solidity file's name, text and warnings made from it.
- `src/bignum.rs`: arbitrary precision integers and fractions; the arithmetic
  is done by `num-bigint` and `num-rational`, behind wrappers whose contracts
  state each result over mathematical integers.
- `src/ast.rs`, `src/text.rs`: the expression tree, locations and diagnostics;
  text building.

`app/main.rs` is the command line tool around `solidity_file`: it reads the
IDL files, writes the Solidity files and prints the warnings. The tests are under `tests/`.
