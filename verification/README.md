# finite_wasm

Instrumentation of WebAssembly modules, so that a host can meter the gas and the stack that they
use. The library is written in Rust and verified with Verus.

Given a module, the name of a module to import from, and the outcome of an analysis,
`InstrumentContext::new(..).run()` gives the instrumented module:

* It imports two functions, `finite_wasm_gas` and `finite_wasm_stack`, before all others.
* The first is called in front of the operators that the analysis has picked, with the gas that is
  to be charged there.
* The second is called on entry to a function with the sizes of its operand stack and of its frame,
  and in front of every way out with the same sizes, negated.
* Whatever refers to a function refers to it by its new index, which is larger by two.
* All other sections are copied as they are.

`src/` is the library. Reading is left to `wasmparser` and writing to `wasm_encoder`; the modules
`read` and `encode` hold everything that is taken on trust of them. The contracts speak of what was
read and of what is written, as plain values. `laws`, `function_laws` and `body_laws` hold what is
proved of the instrumentation as a whole.

`tests/` runs the library on whole modules and on its parts. `app/` offers the same operation to
callers that expect a standard error type.
