//! Instrumentation of WebAssembly modules, so that a host can meter them.
//!
//! Given a module and an [analysis](analysis::AnalysisOutcome) of it, the module is rewritten: it
//! calls a function of the host wherever it uses up gas, and another one wherever a function of it
//! takes or gives back stack. These two functions are imported before all others, so that every
//! other function of the module has an index that is larger by two; everything that refers to a
//! function is rewritten accordingly.
//!
//! [`instrument::InstrumentContext`] does all of this. The work is split into parts:
//!
//! * [`model`] describes the parts of a module as plain values;
//! * [`read`] reads them with `wasmparser`, and [`encode`] writes them with `wasm_encoder`, as far
//!   as their [sizes](size) can be told;
//! * [`entries`] and [`names`] rewrite the entries of sections, and [`code`] function bodies;
//! * [`context`] says what becomes of a module as a whole;
//! * [`module_laws`], [`section_laws`], [`name_laws`], [`metering_laws`] and [`body_laws`] say what
//!   becomes of each part of a module, and [`laws`] and [`function_laws`] what holds of the result;
//! * [`view_laws`] says what the contracts see of a value, and [`size_laws`] what it takes.
pub mod analysis;
pub mod body_laws;
pub mod code;
pub mod context;
pub mod encode;
pub mod entries;
pub mod error;
pub mod function_laws;
pub mod instrument;
pub mod laws;
pub mod metering_laws;
pub mod model;
pub mod module_laws;
pub mod name_laws;
pub mod names;
pub mod read;
pub mod section_laws;
pub mod size;
pub mod size_laws;
pub mod traverse;
pub mod view_laws;
