//! The tests found in a module and the modes in which they run.

use vstd::prelude::*;
use crate::strings::push_text;

verus! {

/// The tests to run, and how many tests were filtered out.
pub struct Tests {
    pub tests: Vec<Test>,
    pub filtered: usize,
}

impl Tests {
    /// No tests, none filtered out.
    pub fn new() -> (r: Self)
        ensures
            r.tests@.len() == 0,
            r.filtered == 0,
    {
        Self { tests: Vec::new(), filtered: 0 }
    }
}

/// A test.
pub struct Test {
    /// The test name.
    pub name: String,
    /// Symbol name.
    pub export: String,
    /// Whether or not the test should be ignored.
    pub ignored: bool,
}

/// Where and how tests run.
#[derive(Debug, Copy, Clone, Eq, PartialEq, Structural)]
pub enum TestMode {
    Node { no_modules: bool },
    Deno,
    Browser { no_modules: bool },
    DedicatedWorker { no_modules: bool },
    SharedWorker { no_modules: bool },
    ServiceWorker { no_modules: bool },
}

impl TestMode {
    /// Whether the tests run in a worker.
    pub fn is_worker(self) -> (r: bool)
        ensures
            r == (self is DedicatedWorker || self is SharedWorker || self is ServiceWorker),
    {
        match self {
            Self::DedicatedWorker { .. } | Self::SharedWorker { .. } | Self::ServiceWorker { .. } => true,
            _ => false,
        }
    }

    /// Whether the bindings are generated without ES modules (always so
    /// for Deno).
    pub fn no_modules(self) -> (r: bool)
        ensures
            r == match self {
                TestMode::Deno => true,
                TestMode::Node { no_modules } => no_modules,
                TestMode::Browser { no_modules } => no_modules,
                TestMode::DedicatedWorker { no_modules } => no_modules,
                TestMode::SharedWorker { no_modules } => no_modules,
                TestMode::ServiceWorker { no_modules } => no_modules,
            },
    {
        match self {
            Self::Deno => true,
            Self::Browser { no_modules }
            | Self::Node { no_modules }
            | Self::DedicatedWorker { no_modules }
            | Self::SharedWorker { no_modules }
            | Self::ServiceWorker { no_modules } => no_modules,
        }
    }
}

} // verus!
