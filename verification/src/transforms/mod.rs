//! Facts about a module that decide which transformations it needs, and
//! the simple transformations done on the plain model.

use vstd::prelude::*;

pub mod catch_handler;
pub mod jspi;
pub mod jspi_hooks;
pub mod memory_discard;
pub mod multi_value;
use crate::strings::push_text;
use crate::wasm_model::{Export, ExportItem, Func, FunctionKind, Instr, LocalFunction, Module, Tag};

verus! {

/// Whether the module defines exception tags of its own (a sign of
/// exception handling support).
pub open spec fn spec_has_local_exception_tags(m: Module) -> bool {
    exists|i: int| 0 <= i < m.tags@.len() && (#[trigger] m.tags@[i]).local
}

/// Returns true if the module has local exception tags (indicating
/// exception handling support).
pub fn has_local_exception_tags(module: &Module) -> (r: bool)
    ensures
        r == spec_has_local_exception_tags(*module),
{
    let mut i: usize = 0;
    while i < module.tags.len()
        invariant
            i <= module.tags@.len(),
            forall|j: int| 0 <= j < i ==> !(#[trigger] module.tags@[j]).local,
        decreases module.tags@.len() - i,
    {
        if module.tags[i].local {
            return true;
        }
        i = i + 1;
    }
    false
}

/// The version of exception handling used in the module.
#[derive(Debug, Clone, Copy, PartialEq, Eq, Structural)]
pub enum ExceptionHandlingVersion {
    /// No exception handling instructions found
    Unused,
    /// Legacy EH (phase 1): try/catch/catch_all instructions
    Legacy,
    /// Modern EH (phase 4): try_table instruction
    Modern,
}

/// The instruction of the chosen exception handling version: `try_table`
/// for the modern one, `try` for the legacy one.
pub open spec fn is_eh_instr(i: Instr, modern: bool) -> bool {
    if modern {
        i is TryTable
    } else {
        i is Try
    }
}

/// Whether a function body holds an instruction of the chosen version.
pub open spec fn body_uses(lf: LocalFunction, modern: bool) -> bool {
    exists|q: int, i: int|
        0 <= q < lf.seqs@.len() && 0 <= i < lf.seqs@[q]@.len() && is_eh_instr(
            #[trigger] lf.seqs@[q]@[i],
            modern,
        )
}

/// Whether a function is locally defined and holds an instruction of the
/// chosen version.
pub open spec fn func_uses(f: Func, modern: bool) -> bool {
    match f.kind {
        FunctionKind::Local(lf) => body_uses(lf, modern),
        _ => false,
    }
}

/// Whether some locally defined function of the module holds an
/// instruction of the chosen version.
pub open spec fn module_uses(m: Module, modern: bool) -> bool {
    exists|f: int| 0 <= f < m.funcs@.len() && func_uses(#[trigger] m.funcs@[f], modern)
}

/// The exception handling version: modern if any `try_table` occurs,
/// else legacy if any `try` occurs, else none.
pub open spec fn spec_exception_handling_version(m: Module) -> ExceptionHandlingVersion {
    if module_uses(m, true) {
        ExceptionHandlingVersion::Modern
    } else if module_uses(m, false) {
        ExceptionHandlingVersion::Legacy
    } else {
        ExceptionHandlingVersion::Unused
    }
}

fn exec_body_uses(lf: &LocalFunction, modern: bool) -> (r: bool)
    ensures
        r == body_uses(*lf, modern),
{
    let mut q: usize = 0;
    while q < lf.seqs.len()
        invariant
            q <= lf.seqs@.len(),
            forall|a: int, b: int|
                0 <= a < q && 0 <= b < lf.seqs@[a]@.len() ==> !is_eh_instr(#[trigger] lf.seqs@[a]@[b], modern),
        decreases lf.seqs@.len() - q,
    {
        let seq = &lf.seqs[q];
        let mut i: usize = 0;
        while i < seq.len()
            invariant
                q < lf.seqs@.len(),
                seq@ == lf.seqs@[q as int]@,
                i <= seq@.len(),
                forall|a: int, b: int|
                    0 <= a < q && 0 <= b < lf.seqs@[a]@.len() ==> !is_eh_instr(#[trigger] lf.seqs@[a]@[b], modern),
                forall|b: int| 0 <= b < i ==> !is_eh_instr(#[trigger] lf.seqs@[q as int]@[b], modern),
            decreases seq@.len() - i,
        {
            let hit = match &seq[i] {
                Instr::TryTable(_, _) => modern,
                Instr::Try(_) => !modern,
                _ => false,
            };
            if hit {
                assert(is_eh_instr(lf.seqs@[q as int]@[i as int], modern));
                return true;
            }
            i = i + 1;
        }
        q = q + 1;
    }
    false
}

fn exec_module_uses(m: &Module, modern: bool) -> (r: bool)
    ensures
        r == module_uses(*m, modern),
{
    let mut f: usize = 0;
    while f < m.funcs.len()
        invariant
            f <= m.funcs@.len(),
            forall|g: int| 0 <= g < f ==> !func_uses(#[trigger] m.funcs@[g], modern),
        decreases m.funcs@.len() - f,
    {
        match &m.funcs[f].kind {
            FunctionKind::Local(lf) => {
                if exec_body_uses(lf, modern) {
                    assert(func_uses(m.funcs@[f as int], modern));
                    return true;
                }
            },
            _ => {},
        }
        f = f + 1;
    }
    false
}

/// Detects which exception handling version the module uses: `Modern`
/// when a `try_table` occurs (even alongside a `try`, as the module then
/// likely supports both), `Legacy` when only `try` does, `None` otherwise.
pub fn detect_exception_handling_version(module: &Module) -> (r: ExceptionHandlingVersion)
    ensures
        r == spec_exception_handling_version(*module),
{
    if exec_module_uses(module, true) {
        ExceptionHandlingVersion::Modern
    } else if exec_module_uses(module, false) {
        ExceptionHandlingVersion::Legacy
    } else {
        ExceptionHandlingVersion::Unused
    }
}

} // verus!

verus! {

/// If a start function is present, it removes it from the `start` section
/// of the Wasm module and then moves it to an exported function, named
/// `__wbindgen_start`. Returns whether there was one.
pub fn unstart_start_function(module: &mut Module) -> (r: bool)
    ensures
        r == old(module).start is Some,
        final(module).start is None,
        match old(module).start {
            Some(f) => final(module).exports@.len() == old(module).exports@.len() + 1
                && final(module).exports@.drop_last() == old(module).exports@
                && final(module).exports@.last().name@ == "__wbindgen_start"@
                && final(module).exports@.last().item == ExportItem::Function(f),
            None => final(module).exports@ == old(module).exports@,
        },
        *final(module) == (Module { start: None, exports: final(module).exports, ..*old(module) }),
{
    match module.start.take() {
        None => false,
        Some(f) => {
            let mut name = String::new();
            push_text(&mut name, "__wbindgen_start");
            module.exports.push(Export { name, item: ExportItem::Function(f) });
            proof {
                assert(module.exports@.drop_last() =~= old(module).exports@);
            }
            true
        },
    }
}

} // verus!
