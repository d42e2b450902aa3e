//! Naming of benchmark results: the walltime results of a benchmark are
//! filed under a URI made of its file, module path and description.

use vstd::prelude::*;
use crate::strings::push_text;

verus! {

/// The URI and the name of a benchmark: `file::module::desc` and `desc`.
pub fn create_uri_and_name(file: &str, module: &str, desc: &str) -> (r: (String, String))
    ensures
        r.0@ == file@ + "::"@ + module@ + "::"@ + desc@,
        r.1@ == desc@,
{
    let mut uri = String::new();
    push_text(&mut uri, file);
    push_text(&mut uri, "::");
    push_text(&mut uri, module);
    push_text(&mut uri, "::");
    push_text(&mut uri, desc);
    let mut name = String::new();
    push_text(&mut name, desc);
    (uri, name)
}

} // verus!
