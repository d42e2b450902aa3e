//! Redirecting calls to the wrappers that catch JavaScript exceptions: once
//! an import marked `catch` has a wrapper, every call of the import outside
//! the wrappers goes to its wrapper instead.

use vstd::prelude::*;
use crate::wasm_model::{Func, FunctionKind, Instr, LocalFunction, Module};

verus! {

/// The wrapper that `w` gives for the function `f`, if any: the first pair
/// whose first function is `f`.
pub open spec fn wrapper_for(w: Seq<(usize, usize)>, f: usize) -> Option<usize>
    decreases w.len(),
{
    if w.len() == 0 {
        None
    } else if w[0].0 == f {
        Some(w[0].1)
    } else {
        wrapper_for(w.drop_first(), f)
    }
}

/// Whether the function `f` is one of the wrappers.
pub open spec fn is_wrapper(w: Seq<(usize, usize)>, f: usize) -> bool {
    exists|j: int| 0 <= j < w.len() && (#[trigger] w[j]).1 == f
}

/// The instruction with a (tail) call of a wrapped function redirected to
/// its wrapper.
pub open spec fn redirected(w: Seq<(usize, usize)>, i: Instr) -> Instr {
    match i {
        Instr::Call(f) => match wrapper_for(w, f) {
            Some(g) => Instr::Call(g),
            None => i,
        },
        Instr::ReturnCall(f) => match wrapper_for(w, f) {
            Some(g) => Instr::ReturnCall(g),
            None => i,
        },
        _ => i,
    }
}

/// Whether `f2` is the function `f` (at position `index`) after the calls
/// are redirected: the body of a defined function that is not itself a
/// wrapper has every instruction redirected; any other function stays.
pub open spec fn func_redirected(w: Seq<(usize, usize)>, index: int, f: Func, f2: Func) -> bool {
    if f.kind is Local && !is_wrapper(w, index as usize) {
        let lf = f.kind->Local_0;
        &&& f2.ty == f.ty
        &&& f2.name == f.name
        &&& f2.kind matches FunctionKind::Local(lf2) && lf2.args == lf.args && lf2.entry == lf.entry
            && lf2.seqs@.len() == lf.seqs@.len() && forall|s: int|
            0 <= s < lf.seqs@.len() ==> #[trigger] lf2.seqs@[s]@ == lf.seqs@[s]@.map_values(
                |i: Instr| redirected(w, i),
            )
    } else {
        f2 == f
    }
}

fn find_wrapper(w: &Vec<(usize, usize)>, f: usize) -> (r: Option<usize>)
    ensures
        r == wrapper_for(w@, f),
{
    let mut i: usize = 0;
    assert(w@.skip(0) =~= w@);
    while i < w.len()
        invariant
            i <= w@.len(),
            wrapper_for(w@, f) == wrapper_for(w@.skip(i as int), f),
        decreases w@.len() - i,
    {
        assert(w@.skip(i as int)[0] == w@[i as int]);
        if w[i].0 == f {
            return Some(w[i].1);
        }
        assert(w@.skip(i as int).drop_first() =~= w@.skip(i as int + 1));
        i = i + 1;
    }
    assert(w@.skip(i as int).len() == 0);
    None
}

fn exec_is_wrapper(w: &Vec<(usize, usize)>, f: usize) -> (r: bool)
    ensures
        r == is_wrapper(w@, f),
{
    let mut i: usize = 0;
    while i < w.len()
        invariant
            i <= w@.len(),
            forall|j: int| 0 <= j < i ==> (#[trigger] w@[j]).1 != f,
        decreases w@.len() - i,
    {
        if w[i].1 == f {
            return true;
        }
        i = i + 1;
    }
    false
}

/// Redirects the calls in one instruction sequence.
fn redirect_seq(seq: &mut Vec<Instr>, w: &Vec<(usize, usize)>)
    ensures
        final(seq)@ == old(seq)@.map_values(|i: Instr| redirected(w@, i)),
{
    let mut i: usize = 0;
    while i < seq.len()
        invariant
            seq@.len() == old(seq)@.len(),
            i <= seq@.len(),
            forall|j: int| 0 <= j < i ==> #[trigger] seq@[j] == redirected(w@, old(seq)@[j]),
            forall|j: int| i <= j < seq@.len() ==> #[trigger] seq@[j] == old(seq)@[j],
        decreases seq@.len() - i,
    {
        let replacement: Option<Instr> = match &seq[i] {
            Instr::Call(f) => match find_wrapper(w, *f) {
                Some(g) => Some(Instr::Call(g)),
                None => None,
            },
            Instr::ReturnCall(f) => match find_wrapper(w, *f) {
                Some(g) => Some(Instr::ReturnCall(g)),
                None => None,
            },
            _ => None,
        };
        match replacement {
            Some(x) => {
                seq.set(i, x);
            },
            None => {},
        }
        i = i + 1;
    }
    assert(seq@ =~= old(seq)@.map_values(|i: Instr| redirected(w@, i)));
}

/// Redirects the calls in every sequence of a function body.
fn redirect_body(lf: &mut LocalFunction, w: &Vec<(usize, usize)>)
    ensures
        final(lf).args == old(lf).args,
        final(lf).entry == old(lf).entry,
        final(lf).seqs@.len() == old(lf).seqs@.len(),
        forall|s: int|
            0 <= s < old(lf).seqs@.len() ==> #[trigger] final(lf).seqs@[s]@ == old(lf).seqs@[s]@.map_values(
                |i: Instr| redirected(w@, i),
            ),
{
    let mut s: usize = 0;
    while s < lf.seqs.len()
        invariant
            lf.args == old(lf).args,
            lf.entry == old(lf).entry,
            lf.seqs@.len() == old(lf).seqs@.len(),
            s <= lf.seqs@.len(),
            forall|j: int|
                0 <= j < s ==> #[trigger] lf.seqs@[j]@ == old(lf).seqs@[j]@.map_values(
                    |i: Instr| redirected(w@, i),
                ),
            forall|j: int| s <= j < lf.seqs@.len() ==> #[trigger] lf.seqs@[j] == old(lf).seqs@[j],
        decreases lf.seqs@.len() - s,
    {
        let mut seq: Vec<Instr> = Vec::new();
        lf.seqs.set_and_swap(s, &mut seq);
        redirect_seq(&mut seq, w);
        lf.seqs.set(s, seq);
        s = s + 1;
    }
}

/// Redirects every call of a function that has a wrapper in `wrappers`
/// (pairs of a function and its wrapper) to the wrapper, in all defined
/// functions but the wrappers themselves.
pub fn rewrite_calls(module: &mut Module, wrappers: &Vec<(usize, usize)>)
    ensures
        final(module).funcs@.len() == old(module).funcs@.len(),
        forall|k: int|
            0 <= k < old(module).funcs@.len() ==> func_redirected(
                wrappers@,
                k,
                #[trigger] old(module).funcs@[k],
                final(module).funcs@[k],
            ),
        *final(module) == (Module { funcs: final(module).funcs, ..*old(module) }),
{
    let mut k: usize = 0;
    while k < module.funcs.len()
        invariant
            module.funcs@.len() == old(module).funcs@.len(),
            k <= module.funcs@.len(),
            forall|j: int|
                0 <= j < k ==> func_redirected(wrappers@, j, #[trigger] old(module).funcs@[j], module.funcs@[j]),
            forall|j: int| k <= j < module.funcs@.len() ==> #[trigger] module.funcs@[j] == old(module).funcs@[j],
            *module == (Module { funcs: module.funcs, ..*old(module) }),
        decreases module.funcs@.len() - k,
    {
        let mut f = Func { ty: 0, name: None, kind: FunctionKind::Uninitialized };
        module.funcs.set_and_swap(k, &mut f);
        let skip = exec_is_wrapper(wrappers, k);
        let Func { ty, name, kind } = f;
        let new_kind = match kind {
            FunctionKind::Local(lf) => {
                let mut lf = lf;
                if !skip {
                    redirect_body(&mut lf, wrappers);
                }
                FunctionKind::Local(lf)
            },
            other => other,
        };
        module.funcs.set(k, Func { ty, name, kind: new_kind });
        k = k + 1;
    }
}

} // verus!
