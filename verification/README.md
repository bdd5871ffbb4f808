# stacking

Makes variants of a WebAssembly module by stacking random mutations on top of
each other, or by spreading out from random parents, and keeps those that behave
like the original.

- `src/` is the library, verified with Verus: the search and its cache, the
  comparison of executions, the reports and the statistics, the records on disk,
  and the command lines of the helper programs. The mutator (`wasm-mutate`), the
  database (`sled`), the hash (`blake3`), the compiler (`wasmtime`), the parser
  (`wasmparser`), the clock (`pausable_clock`) and the random numbers (`rand`)
  are called through small functions whose contracts are taken on trust; each
  says what it claims.
- `app/` is the command-line program: it executes modules under WASI, runs the
  argument generator and the oracle, and reads and writes files, as the library
  tells it to.
- `tests/` runs the library, with the real crates behind it.
