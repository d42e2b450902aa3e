//! The adapter layer between Wasm values and JavaScript values.

pub mod outgoing;
