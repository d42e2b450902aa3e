//! Running the descriptor functions of a module: every function exported
//! as `__wbindgen_describe_<name>` is interpreted, and the words it emits
//! describe the type of `<name>`. The descriptor exports (and the
//! `__wbindgen_skip_interpret_calls` export) are deleted afterwards.

use vstd::prelude::*;
use crate::interpreter::setup::{spec_interpret, Interpreter};
use crate::interpreter::{vec_contains, InterpConfig, InterpretError, MachineView};
use crate::strings::{chars_start_with, push_text, string_of, to_chars};
use crate::wasm_model::{Export, ExportItem, Module};

verus! {

/// The prefix of the names of descriptor exports.
pub open spec fn describe_prefix() -> Seq<char> {
    "__wbindgen_describe_"@
}

/// Whether an export is a descriptor export.
pub open spec fn is_describe_export(e: Export) -> bool {
    describe_prefix().len() <= e.name@.len() && e.name@.subrange(0, describe_prefix().len() as int)
        == describe_prefix()
}

/// Why the descriptor functions could not be run.
pub enum DescribeError {
    /// The export (by index) has a descriptor name but is no function.
    NotAFunction { export: usize },
    /// Interpreting a descriptor function failed.
    Interpret(InterpretError),
}

/// The descriptors of a module's exports, and the exports to drop.
pub struct DescribedExports {
    /// For each descriptor export, in order: the described name (after the
    /// prefix) and the words its function emitted.
    pub descriptors: Vec<(String, Vec<u32>)>,
    /// The exports to drop, by index: the `__wbindgen_skip_interpret_calls`
    /// export, if any, then the descriptor exports.
    pub to_remove: Vec<usize>,
}

/// The plain value of the descriptors found.
pub open spec fn descriptors_view(d: Seq<(String, Vec<u32>)>) -> Seq<(Seq<char>, Seq<u32>)> {
    d.map_values(|p: (String, Vec<u32>)| (p.0@, p.1@))
}

/// Running the descriptor exports among the first `k` exports, from
/// configuration `c` and state `s`: the configuration and state after the
/// last run, the descriptors (name after the prefix, words) and the
/// indices of the descriptor exports.
pub open spec fn describe_exports(m: Module, c: InterpConfig, s: MachineView, k: nat) -> Result<
    (InterpConfig, MachineView, Seq<(Seq<char>, Seq<u32>)>, Seq<usize>),
    DescribeError,
>
    decreases k,
{
    if k == 0 {
        Ok((c, s, seq![], seq![]))
    } else {
        match describe_exports(m, c, s, (k - 1) as nat) {
            Err(e) => Err(e),
            Ok((c1, s1, ds, rm)) => {
                let e = m.exports@[k - 1];
                if !is_describe_export(e) {
                    Ok((c1, s1, ds, rm))
                } else {
                    match e.item {
                        ExportItem::Function(f) => match spec_interpret(m, c1, s1, f) {
                            Err(err) => Err(DescribeError::Interpret(err)),
                            Ok((c2, s2)) => Ok(
                                (
                                    c2,
                                    s2,
                                    ds.push((e.name@.skip(describe_prefix().len() as int), s2.descriptor)),
                                    rm.push((k - 1) as usize),
                                ),
                            ),
                        },
                        _ => Err(DescribeError::NotAFunction { export: (k - 1) as usize }),
                    }
                }
            },
        }
    }
}

/// A failed run ends the runs: the error stays the outcome whatever
/// exports follow.
pub proof fn lemma_describe_error_stays(m: Module, c: InterpConfig, s: MachineView, k: nat, j: nat)
    requires
        k <= j,
        describe_exports(m, c, s, k) is Err,
    ensures
        describe_exports(m, c, s, j) == describe_exports(m, c, s, k),
    decreases j,
{
    if j > k {
        lemma_describe_error_stays(m, c, s, k, (j - 1) as nat);
    }
}

/// The indices of the exports to drop before the descriptor exports: the
/// `__wbindgen_skip_interpret_calls` export, if there is one.
pub open spec fn skip_export(skip: Option<usize>) -> Seq<usize> {
    match skip {
        Some(i) => seq![i],
        None => seq![],
    }
}

/// The exports whose positions are not among `rm`, in order.
pub open spec fn kept_exports(s: Seq<Export>, rm: Seq<usize>) -> Seq<Export>
    decreases s.len(),
{
    if s.len() == 0 {
        seq![]
    } else {
        let rest = kept_exports(s.drop_last(), rm);
        if rm.contains((s.len() - 1) as usize) {
            rest
        } else {
            rest.push(s.last())
        }
    }
}

/// Deletes the exports at the positions in `rm`; the others keep their
/// order.
pub fn remove_exports(module: &mut Module, rm: &Vec<usize>)
    ensures
        final(module).exports@ == kept_exports(old(module).exports@, rm@),
        *final(module) == (Module { exports: final(module).exports, ..*old(module) }),
{
    let mut exports: Vec<Export> = Vec::new();
    std::mem::swap(&mut exports, &mut module.exports);
    let ghost s = exports@;
    let n = exports.len();
    let mut kept: Vec<Export> = Vec::new();
    let mut k: usize = 0;
    assert(s.take(0) =~= seq![]);
    while k < n
        invariant
            n == s.len(),
            exports@.len() == n,
            k <= n,
            forall|j: int| k <= j < n ==> #[trigger] exports@[j] == s[j],
            kept@ == kept_exports(s.take(k as int), rm@),
            *module == (Module { exports: module.exports, ..*old(module) }),
            s == old(module).exports@,
        decreases n - k,
    {
        let mut e = Export { name: String::new(), item: ExportItem::Function(0) };
        exports.set_and_swap(k, &mut e);
        assert(e == s[k as int]);
        if !vec_contains(rm, k) {
            kept.push(e);
        }
        assert(s.take(k as int + 1).drop_last() =~= s.take(k as int));
        k = k + 1;
    }
    assert(s.take(n as int) =~= s);
    module.exports = kept;
}

/// Interprets every descriptor export of `module` in order, with the
/// interpreter set up for it (see [`describe_exports`]), and then deletes
/// the descriptor exports and the `__wbindgen_skip_interpret_calls` export.
#[verifier::rlimit(40)]
pub fn execute_exports(module: &mut Module, interpreter: &mut Interpreter) -> (r: Result<DescribedExports, DescribeError>)
    requires
        old(interpreter).wf(),
    ensures
        final(interpreter).wf(),
        match describe_exports(*old(module), old(interpreter).config, old(interpreter).state@, old(module).exports@.len()) {
            Ok((c, s, ds, rm)) => r matches Ok(d) && descriptors_view(d.descriptors@) == ds && d.to_remove@
                == skip_export(old(interpreter).skip_interpret_export) + rm && final(interpreter).config == c
                && final(interpreter).state@ == s && final(module).exports@ == kept_exports(
                old(module).exports@,
                d.to_remove@,
            ) && *final(module) == (Module { exports: final(module).exports, ..*old(module) }),
            Err(e) => r matches Err(re) && re == e && *final(module) == *old(module),
        },
{
    let described = describe_all(module, interpreter);
    match described {
        Ok(d) => {
            remove_exports(module, &d.to_remove);
            Ok(d)
        },
        Err(e) => Err(e),
    }
}

/// Interprets every descriptor export of `module` in order; see
/// [`describe_exports`].
#[verifier::rlimit(40)]
fn describe_all(module: &Module, interpreter: &mut Interpreter) -> (r: Result<DescribedExports, DescribeError>)
    requires
        old(interpreter).wf(),
    ensures
        final(interpreter).wf(),
        match describe_exports(*module, old(interpreter).config, old(interpreter).state@, module.exports@.len()) {
            Ok((c, s, ds, rm)) => r matches Ok(d) && descriptors_view(d.descriptors@) == ds && d.to_remove@
                == skip_export(old(interpreter).skip_interpret_export) + rm && final(interpreter).config == c
                && final(interpreter).state@ == s,
            Err(e) => r matches Err(re) && re == e,
        },
{
    let mut to_remove: Vec<usize> = Vec::new();
    match interpreter.skip_interpret() {
        Some(i) => to_remove.push(i),
        None => {},
    }
    let ghost skip = to_remove@;
    assert(skip == skip_export(old(interpreter).skip_interpret_export));
    let ghost c0 = interpreter.config;
    let ghost s0 = interpreter.state@;
    let prefix = to_chars("__wbindgen_describe_");
    let mut descriptors: Vec<(String, Vec<u32>)> = Vec::new();
    let n = module.exports.len();
    let mut k: usize = 0;
    while k < n
        invariant
            n == module.exports@.len(),
            k <= n,
            prefix@ == describe_prefix(),
            interpreter.wf(),
            skip == skip_export(old(interpreter).skip_interpret_export),
            c0 == old(interpreter).config,
            s0 == old(interpreter).state@,
            describe_exports(*module, c0, s0, k as nat) matches Ok((c, s, ds, rm)) && c == interpreter.config
                && s == interpreter.state@ && ds == descriptors_view(descriptors@) && to_remove@ == skip + rm,
        decreases n - k,
    {
        let ghost before = descriptors_view(descriptors@);
        let name = to_chars(module.exports[k].name.as_str());
        if chars_start_with(&name, &prefix) {
            let f = match module.exports[k].item {
                ExportItem::Function(f) => f,
                _ => {
                    proof {
                        lemma_describe_error_stays(*module, c0, s0, (k + 1) as nat, n as nat);
                    }
                    return Err(DescribeError::NotAFunction { export: k });
                },
            };
            let words = match interpreter.try_interpret_descriptor(f, module) {
                Ok(d) => d,
                Err(e) => {
                    proof {
                        lemma_describe_error_stays(*module, c0, s0, (k + 1) as nat, n as nat);
                    }
                    return Err(DescribeError::Interpret(e));
                },
            };
            let described = string_of(&name, prefix.len(), name.len());
            descriptors.push((described, words));
            to_remove.push(k);
            proof {
                assert(descriptors_view(descriptors@) =~= before.push(
                    (module.exports@[k as int].name@.skip(describe_prefix().len() as int), words@),
                ));
            }
        }
        k = k + 1;
    }
    Ok(DescribedExports { descriptors, to_remove })
}

/// The name of a descriptor export, for the message of a failed run.
pub open spec fn describe_message(e: DescribeError, m: Module) -> Seq<char> {
    match e {
        DescribeError::NotAFunction { export } => if export < m.exports@.len() {
            m.exports@[export as int].name@ + " export not a function"@
        } else {
            " export not a function"@
        },
        DescribeError::Interpret(err) => crate::interpreter::setup::interpret_message(err, m),
    }
}

impl DescribeError {
    /// The error's message.
    pub fn message(&self, module: &Module) -> (s: String)
        ensures
            s@ == describe_message(*self, *module),
    {
        match self {
            DescribeError::NotAFunction { export } => {
                let mut s = String::new();
                if *export < module.exports.len() {
                    push_text(&mut s, module.exports[*export].name.as_str());
                }
                push_text(&mut s, " export not a function");
                s
            },
            DescribeError::Interpret(err) => err.message(module),
        }
    }
}

} // verus!
