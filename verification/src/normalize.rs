//! Normalizes the hash suffixes that the Rust compiler appends to the names
//! of wasm-bindgen's internal exports, so that the output does not depend
//! on them.

use vstd::prelude::*;
use crate::strings::{bytes_have_prefix, push_char, push_text, slice_starts_with};
use crate::wasm_model::{ExportItem, Module};

verus! {

/// The byte of a lower-case hexadecimal digit: `0`-`9` or `a`-`f`.
pub open spec fn is_hex_byte(b: u8) -> bool {
    (48 <= b <= 57) || (97 <= b <= 102)
}

/// Whether `s` is a hash suffix: `h` and then exactly 16 lower-case hex
/// digits.
pub open spec fn is_hash_suffix(s: Seq<u8>) -> bool {
    s.len() == 17 && s[0] == 104u8 && forall|i: int| 1 <= i < 17 ==> is_hex_byte(#[trigger] s[i])
}

/// Whether `name` is `prefix` followed by a hash suffix.
pub open spec fn hashed_with(name: Seq<u8>, prefix: Seq<u8>) -> bool {
    bytes_have_prefix(name, prefix) && is_hash_suffix(name.subrange(prefix.len() as int, name.len() as int))
}

/// The known prefixes of wasm-bindgen's internal exports, in the order in
/// which they are tried: the closure invoke shims first, then the closure
/// destructors.
pub open spec fn internal_prefix(k: int) -> Seq<char> {
    if k == 0 {
        "wasm_bindgen__convert__closures_____invoke__"@
    } else {
        "wasm_bindgen__closure__destroy__"@
    }
}

/// Which known prefix `name` carries with a hash suffix, if any: the
/// first that matches.
pub open spec fn spec_internal_prefix_of(name: Seq<u8>) -> Option<int> {
    if hashed_with(name, encode(internal_prefix(0))) {
        Some(0)
    } else if hashed_with(name, encode(internal_prefix(1))) {
        Some(1)
    } else {
        None
    }
}

/// The UTF-8 encoding of a character sequence.
pub open spec fn encode(s: Seq<char>) -> Seq<u8> {
    vstd::utf8::encode_utf8(s)
}

fn hex_byte(b: u8) -> (r: bool)
    ensures
        r == is_hex_byte(b),
{
    (48 <= b && b <= 57) || (97 <= b && b <= 102)
}

fn hashed_with_exec(name: &[u8], prefix: &[u8]) -> (r: bool)
    ensures
        r == hashed_with(name@, prefix@),
{
    if !slice_starts_with(name, prefix) {
        return false;
    }
    let p = prefix.len();
    if name.len() - p != 17 {
        return false;
    }
    if name[p] != 104u8 {
        return false;
    }
    let ghost suffix = name@.subrange(p as int, name@.len() as int);
    let mut i: usize = 1;
    while i < 17
        invariant
            name@.len() <= usize::MAX,
            p + 17 == name@.len(),
            suffix == name@.subrange(p as int, name@.len() as int),
            1 <= i <= 17,
            forall|j: int| 1 <= j < i ==> is_hex_byte(#[trigger] suffix[j]),
        decreases 17 - i,
    {
        if !hex_byte(name[p + i]) {
            assert(suffix[i as int] == name@[p + i]);
            return false;
        }
        assert(suffix[i as int] == name@[p + i]);
        i = i + 1;
    }
    true
}

/// Which known prefix an export name carries with a hash suffix.
fn internal_prefix_index(name: &str) -> (r: Option<usize>)
    ensures
        match spec_internal_prefix_of(encode(name@)) {
            Some(k) => r == Some(k as usize),
            None => r is None,
        },
{
    if hashed_with_exec(name.as_bytes(), "wasm_bindgen__convert__closures_____invoke__".as_bytes()) {
        Some(0)
    } else if hashed_with_exec(name.as_bytes(), "wasm_bindgen__closure__destroy__".as_bytes()) {
        Some(1)
    } else {
        None
    }
}

/// The known prefix with the given index.
fn prefix_text(k: usize) -> (p: &'static str)
    ensures
        p@ == internal_prefix(k as int),
{
    if k == 0 {
        "wasm_bindgen__convert__closures_____invoke__"
    } else {
        "wasm_bindgen__closure__destroy__"
    }
}

/// Checks if an export name is a wasm-bindgen internal one with a hash
/// suffix, and returns its prefix if so.
pub fn is_internal_export_with_hash(name: &str) -> (r: Option<&'static str>)
    ensures
        match spec_internal_prefix_of(encode(name@)) {
            Some(k) => r matches Some(p) && p@ == internal_prefix(k),
            None => r is None,
        },
{
    match internal_prefix_index(name) {
        Some(k) => Some(prefix_text(k)),
        None => None,
    }
}

/// The 16 lowercase hexadecimal digits of `n`, most significant first.
pub open spec fn hex16(n: nat) -> Seq<char> {
    Seq::new(16, |k: int| hex_digit(((n / pow16(15 - k)) % 16) as nat))
}

/// `16` to the power `e`.
pub open spec fn pow16(e: int) -> nat
    decreases e,
{
    if e <= 0 {
        1
    } else {
        16 * pow16(e - 1)
    }
}

/// The lowercase character of a hexadecimal digit.
pub open spec fn hex_digit(d: nat) -> char {
    if d < 10 {
        (48 + d) as char
    } else {
        (87 + d) as char
    }
}

fn exec_hex_digit(d: u64) -> (c: char)
    requires
        d < 16,
    ensures
        c == hex_digit(d as nat),
{
    let digits: [char; 16] = ['0', '1', '2', '3', '4', '5', '6', '7', '8', '9', 'a', 'b', 'c', 'd', 'e', 'f'];
    let c = digits[d as usize];
    assert(c == hex_digit(d as nat)) by {
        assert(digits@[0] == '0' && digits@[1] == '1' && digits@[2] == '2' && digits@[3] == '3');
        assert(digits@[4] == '4' && digits@[5] == '5' && digits@[6] == '6' && digits@[7] == '7');
        assert(digits@[8] == '8' && digits@[9] == '9' && digits@[10] == 'a' && digits@[11] == 'b');
        assert(digits@[12] == 'c' && digits@[13] == 'd' && digits@[14] == 'e' && digits@[15] == 'f');
    }
    c
}

proof fn lemma_pow16_bounds(e: int)
    requires
        0 <= e <= 15,
    ensures
        1 <= pow16(e) <= 0x1000_0000_0000_0000,
        pow16(e + 1) == 16 * pow16(e),
    decreases 15 - e,
{
    if e < 15 {
        lemma_pow16_bounds(e + 1);
        assert(pow16(e + 1) == 16 * pow16(e));
        assert(pow16(e + 2) == 16 * pow16(e + 1));
    } else {
        reveal_with_fuel(pow16, 16);
        assert(pow16(15) == 0x1000_0000_0000_0000);
    }
    assert(pow16(e) >= 1) by {
        lemma_pow16_pos(e);
    }
}

proof fn lemma_pow16_pos(e: int)
    ensures
        pow16(e) >= 1,
    decreases e,
{
    if e > 0 {
        lemma_pow16_pos(e - 1);
    }
}

/// Appends the 16 lowercase hexadecimal digits of `n` to `out`.
pub fn push_hex16(out: &mut String, n: u64)
    ensures
        final(out)@ == old(out)@ + hex16(n as nat),
{
    let mut k: usize = 0;
    let mut div: u64 = 0x1000_0000_0000_0000;
    proof {
        reveal_with_fuel(pow16, 16);
    }
    while k < 16
        invariant
            k <= 16,
            k < 16 ==> div as nat == pow16(15 - k),
            out@ == old(out)@ + hex16(n as nat).take(k as int),
        decreases 16 - k,
    {
        proof {
            lemma_pow16_bounds(15 - k as int);
        }
        let d = (n / div) % 16;
        push_char(out, exec_hex_digit(d));
        assert(out@ =~= old(out)@ + hex16(n as nat).take(k as int + 1));
        if k < 15 {
            proof {
                lemma_pow16_bounds(14 - k as int);
            }
            div = div / 16;
        }
        k = k + 1;
    }
    assert(hex16(n as nat).take(16) =~= hex16(n as nat));
}

/// The exports that are internal ones with a hash suffix: `Some` prefix
/// index for each export, by position.
pub open spec fn export_prefixes(m: Module) -> Seq<Option<int>> {
    Seq::new(
        m.exports@.len(),
        |i: int| match m.exports@[i].item {
            ExportItem::Function(_) => spec_internal_prefix_of(encode(m.exports@[i].name@)),
            _ => None,
        },
    )
}

/// The sort key of export `i`: the rank of its function's type.
pub open spec fn export_rank(m: Module, type_rank: Seq<u64>, i: int) -> u64 {
    match m.exports@[i].item {
        ExportItem::Function(f) => type_rank[m.funcs@[f as int].ty as int],
        _ => 0,
    }
}

/// Whether export `j` comes before export `i` once the hashed exports are
/// sorted, stably, by prefix and then by type rank.
pub open spec fn sorted_before(m: Module, type_rank: Seq<u64>, j: int, i: int) -> bool {
    let pj = export_prefixes(m)[j];
    let pi = export_prefixes(m)[i];
    &&& pj is Some
    &&& pj == pi
    &&& (export_rank(m, type_rank, j) < export_rank(m, type_rank, i) || (export_rank(m, type_rank, j)
        == export_rank(m, type_rank, i) && j < i))
}

/// How many of the first `k` exports come before export `i` once sorted.
pub open spec fn count_before(m: Module, type_rank: Seq<u64>, i: int, k: nat) -> nat
    decreases k,
{
    if k == 0 {
        0
    } else {
        count_before(m, type_rank, i, (k - 1) as nat) + if sorted_before(m, type_rank, k - 1, i) {
            1nat
        } else {
            0nat
        }
    }
}

/// The position of hashed export `i` among the hashed exports of its
/// prefix once they are sorted.
pub open spec fn export_counter(m: Module, type_rank: Seq<u64>, i: int) -> nat {
    count_before(m, type_rank, i, m.exports@.len())
}

/// The name export `i` has after normalization: a hashed internal export
/// is renamed to its prefix, `h` and its counter in 16 hex digits; any
/// other export keeps its name.
pub open spec fn normalized_name(m: Module, type_rank: Seq<u64>, i: int) -> Seq<char> {
    match export_prefixes(m)[i] {
        Some(k) => internal_prefix(k) + "h"@ + hex16(export_counter(m, type_rank, i)),
        None => m.exports@[i].name@,
    }
}

/// Whether every function export has a function and type rank to look up.
pub open spec fn ranks_cover(m: Module, type_rank: Seq<u64>) -> bool {
    forall|i: int|
        0 <= i < m.exports@.len() ==> match (#[trigger] m.exports@[i]).item {
            ExportItem::Function(f) => f < m.funcs@.len() && m.funcs@[f as int].ty < type_rank.len(),
            _ => true,
        }
}

fn exec_prefix_of(m: &Module, i: usize) -> (r: Option<usize>)
    requires
        i < m.exports@.len(),
    ensures
        match export_prefixes(*m)[i as int] {
            Some(k) => r == Some(k as usize),
            None => r is None,
        },
{
    match m.exports[i].item {
        ExportItem::Function(_) => internal_prefix_index(m.exports[i].name.as_str()),
        _ => None,
    }
}

fn exec_rank(m: &Module, type_rank: &Vec<u64>, i: usize) -> (r: u64)
    requires
        i < m.exports@.len(),
        ranks_cover(*m, type_rank@),
    ensures
        r == export_rank(*m, type_rank@, i as int),
{
    match m.exports[i].item {
        ExportItem::Function(f) => {
            assert(match m.exports@[i as int].item {
                ExportItem::Function(f) => f < m.funcs@.len() && m.funcs@[f as int].ty < type_rank@.len(),
                _ => true,
            });
            type_rank[m.funcs[f].ty]
        },
        _ => 0,
    }
}

/// Renames the wasm-bindgen internal exports with compiler-generated hash
/// suffixes: each becomes its prefix followed by `h` and a sequential
/// number in 16 hex digits, numbered per prefix in the order of the types
/// of their functions (`type_rank` gives each type's rank in that order;
/// exports of equal rank keep their order). Other exports are untouched.
pub fn normalize_exports(module: &mut Module, type_rank: &Vec<u64>)
    requires
        ranks_cover(*old(module), type_rank@),
    ensures
        final(module).exports@.len() == old(module).exports@.len(),
        forall|i: int| 0 <= i < old(module).exports@.len() ==> (#[trigger] final(module).exports@[i]).name@
            == normalized_name(*old(module), type_rank@, i) && final(module).exports@[i].item == old(
            module,
        ).exports@[i].item,
        *final(module) == (Module { exports: final(module).exports, ..*old(module) }),
{
    let ghost m0 = *module;
    let n = module.exports.len();
    let mut names: Vec<Option<String>> = Vec::new();
    let mut i: usize = 0;
    while i < n
        invariant
            *module == m0,
            n == m0.exports@.len(),
            ranks_cover(m0, type_rank@),
            i <= n,
            names@.len() == i,
            forall|x: int| 0 <= x < i ==> match #[trigger] names@[x] {
                Some(s) => export_prefixes(m0)[x] is Some && s@ == normalized_name(m0, type_rank@, x),
                None => export_prefixes(m0)[x] is None,
            },
        decreases n - i,
    {
        match exec_prefix_of(module, i) {
            Some(prefix) => {
                let rank = exec_rank(module, type_rank, i);
                let mut count: u64 = 0;
                let mut j: usize = 0;
                while j < n
                    invariant
                        *module == m0,
                        n == m0.exports@.len(),
                        ranks_cover(m0, type_rank@),
                        i < n,
                        j <= n,
                        export_prefixes(m0)[i as int] == Some(prefix as int),
                        rank == export_rank(m0, type_rank@, i as int),
                        count as nat == count_before(m0, type_rank@, i as int, j as nat),
                        count <= j,
                    decreases n - j,
                {
                    let pj = exec_prefix_of(module, j);
                    let same = match pj {
                        Some(q) => q == prefix,
                        None => false,
                    };
                    if same {
                        let rj = exec_rank(module, type_rank, j);
                        if rj < rank || (rj == rank && j < i) {
                            count = count + 1;
                        }
                    }
                    j = j + 1;
                }
                let mut s = String::new();
                push_text(&mut s, prefix_text(prefix));
                push_text(&mut s, "h");
                push_hex16(&mut s, count);
                names.push(Some(s));
            },
            None => {
                names.push(None);
            },
        }
        i = i + 1;
    }
    let mut k: usize = 0;
    while k < n
        invariant
            n == m0.exports@.len(),
            names@.len() == n,
            k <= n,
            module.exports@.len() == n,
            *module == (Module { exports: module.exports, ..m0 }),
            forall|x: int| 0 <= x < n ==> match #[trigger] names@[x] {
                Some(s) => export_prefixes(m0)[x] is Some && s@ == normalized_name(m0, type_rank@, x),
                None => export_prefixes(m0)[x] is None,
            },
            forall|x: int| 0 <= x < k ==> (#[trigger] module.exports@[x]).name@ == normalized_name(m0, type_rank@, x)
                && module.exports@[x].item == m0.exports@[x].item,
            forall|x: int| k <= x < n ==> #[trigger] module.exports@[x] == m0.exports@[x],
        decreases n - k,
    {
        match &names[k] {
            Some(s) => {
                let item = module.exports[k].item;
                let renamed = crate::wasm_model::Export { name: string_copy(s), item };
                module.exports.set(k, renamed);
            },
            None => {},
        }
        k = k + 1;
    }
}

/// A copy of a string.
fn string_copy(s: &String) -> (r: String)
    ensures
        r@ == s@,
{
    let mut r = String::new();
    push_text(&mut r, s.as_str());
    r
}

} // verus!
