# forth

A Forth interpreter whose machine is written and proved in Verus.

- `src/environment`: units, numbers and their cell layout, values, the memory model
  (address map, segments, data space, stacks, heap).
- `src/io`: number and text formatting, the tokenizer, output streams.
- `src/evaluate`: the machine state, the dictionary, configuration, execution
  (calls, returns, jumps, the instruction cycle), kernels and the `Forth` driver.
- `src/operations`: the built-in words, grouped as arithmetic, stack, memory, data,
  control flow, compiler, printing and string words.
- `src/compiled_instructions`: the small instructions made while compiling.
- `src/debugging`: the debugger (a kernel with its own Forth machine reading debug
  commands) and the profiler (a kernel counting instructions).
- `src/properties.rs`: proved statements that relate several operations.
- `app/main.rs`: the program: runs a Forth file, or a short preset program, and then the
  Forth read from standard input, which the machine and its debugger share.

Every function in `src/` is verified against its `requires`/`ensures` contract; the
tests in `tests/` run the same code. A contract says what it says and no more: the
interpreter loop is stated step by step (`stepped`, `evaluated_in`), so what a given text
leaves on the stack follows from the contracts by running those steps, which the proofs
here do only for empty text; the tests check other results.

The heap's contracts say where each request is served and, while no freed chunk waits
for reuse, that the chunk handed out was not in use before and is in use afterwards
(`fresh_chunk`), so such chunks never share a cell (`law_fresh_chunks_disjoint`). A chunk
freed twice, or freed at an address inside it, is handed out again as it is, so no such
law holds once chunks have been freed.
