//! Verified core of the wasm-bindgen command line support library.
//!
//! The modules hold the pure logic of the bindings generator: the
//! "did you mean ...?" suggestion ranking, the type descriptors and their
//! custom-section transport, the descriptor interpreter over a plain model
//! of a Wasm module, the Wasm codegen conventions, the export name
//! normalisation, the transforms' decisions, helpers of the JavaScript
//! generator, and the configuration of the test runner and of the cargo
//! subcommand.
#![allow(unused_imports)]

pub mod strings;
pub mod keyed;
pub mod suggest;
pub mod descriptor;
pub mod wit;
pub mod descriptors_section;
pub mod descriptors;
pub mod wasm_model;
pub mod wasm_conventions;
pub mod interpreter;
pub mod testing;
pub mod build;
pub mod transforms;
pub mod normalize;
pub mod cargo_config;
pub mod benchmark;
pub mod intrinsic;
pub mod js;
pub mod js_import;
pub mod js_export;
pub mod test_runner;
