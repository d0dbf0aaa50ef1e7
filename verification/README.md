# wasm_core

A WebAssembly 2.0 (wg-2.0) engine written in Verus: a strict binary
decoder, a validator, and an iterative interpreter, with the judging logic
of a conformance runner for the official `test/core` corpus.

## Layout

- `src/` — the verified library.
  - `leb.rs`, `bytes.rs`, `decode.rs`, `opcodes.rs` — LEB128 and
    little-endian models, the binary decoder and the opcode tables.
  - `validate.rs`, `typing.rs` — the type checker (operand and control
    stacks, constant expressions, index spaces) and the model of
    instruction typing it is proved against.
  - `numeric.rs`, `simd.rs`, `exec.rs`, `store.rs` — integer and lane
    semantics, the interpreter machine and the store (instantiation,
    exports, invocation).
  - `runner.rs` — the spectest host module, module building with
    registry-based import resolution, number parsing, NaN patterns,
    trap-message matching and verdict accounting.
  - `judge.rs` — the runner's judging rules: known command types (an
    unknown one fails, never skipped), the stage an `assert_malformed` or
    `assert_invalid` module must fail at, result and trap judging, and
    the accounting of verdicts.
  - `json.rs` — the JSON values of the corpus commands as a plain data
    type, the engine values they denote and the judging of results
    against expected values.
  - `error.rs`, `text.rs`, `types.rs`, `values.rs`, `module.rs` — error
    and message types, text helpers, and the module and value types.
- `app/` — the conformance runner program: command-line handling, corpus
  files, reading JSON into `json::Json`, the ledger output, host function
  code, and floating-point arithmetic.
- `tests/` — tests of the library.

## The machine and its embedder

The interpreter runs until it needs something it does not compute itself:
the results of a host function or of a floating-point operator. It then
reports an `Event`, and the embedder answers with `Machine::resume`. A
step budget makes every `run` call finish; the embedder calls `run` again
after `Event::Paused`. `Machine::tick` is one round of that loop; `run` is proved to be a
sequence of such rounds.
