//! Parser for the `__wasm_bindgen_descriptors` custom section.
//!
//! The section is a sequence of entries, each framed by a format version
//! byte and a little-endian body length:
//!
//! ```text
//! entry repeated until the section ends:
//!   u8        format_version
//!   u32 LE    entry_body_byte_len
//!   ----- entry body (entry_body_byte_len bytes) -----
//!   u8        shim_name_len
//!   [u8; n]   shim_name
//!   u8        kind
//!   u32 LE    schema_word_count
//!   [u32 LE]  schema (schema_word_count * 4 bytes)
//! ```
//!
//! Entries with an unknown format version are skipped whole thanks to the
//! stable framing, and counted in [`ParseStats`].

use std::collections::BTreeMap;
use vstd::prelude::*;
use vstd::string::*;
use vstd::utf8::*;
use crate::strings::{debug_quoted, decimal, push_debug_quoted, push_decimal, push_text};

verus! {

broadcast use vstd::laws_cmp::group_laws_cmp;

/// The format version of the entries this parser decodes.
pub const DESCRIPTOR_FORMAT_VERSION: u8 = 1;
/// Kind of an entry describing an exported or imported shim.
pub const DESCRIPTOR_KIND_REGULAR: u8 = 0;
/// Kind of an entry describing a cast between two types.
pub const DESCRIPTOR_KIND_CAST: u8 = 1;
/// Kind of an entry describing a static value.
pub const DESCRIPTOR_KIND_STATIC: u8 = 2;

/// One descriptor entry recovered from the section.
#[derive(Debug, Clone, PartialEq, Eq)]
pub struct Entry {
    /// Name of the shim this descriptor describes.
    pub name: String,
    /// Kind discriminator.
    pub kind: u8,
    /// Schema stream encoded as little-endian `u32`s.
    pub schema_bytes: Vec<u8>,
}

/// The plain value of an [`Entry`].
pub struct EntryView {
    pub name: Seq<char>,
    pub kind: u8,
    pub schema_bytes: Seq<u8>,
}

impl View for Entry {
    type V = EntryView;

    open spec fn view(&self) -> EntryView {
        EntryView { name: self.name@, kind: self.kind, schema_bytes: self.schema_bytes@ }
    }
}

/// The little-endian `u32` stored at `pos` in `b`.
pub open spec fn le_u32(b: Seq<u8>, pos: int) -> nat {
    (b[pos] as nat) + (b[pos + 1] as nat) * 256 + (b[pos + 2] as nat) * 65536 + (b[pos + 3]
        as nat) * 16777216
}

/// The little-endian words of a byte string; a trailing partial word is
/// ignored.
pub open spec fn le_words(b: Seq<u8>) -> Seq<u32> {
    Seq::new(b.len() / 4, |i: int| le_u32(b, 4 * i) as u32)
}

fn read_le_u32(b: &[u8], pos: usize) -> (r: u32)
    requires
        pos + 4 <= b@.len(),
    ensures
        r as nat == le_u32(b@, pos as int),
{
    let b0 = b[pos] as u32;
    let b1 = b[pos + 1] as u32;
    let b2 = b[pos + 2] as u32;
    let b3 = b[pos + 3] as u32;
    b0 + b1 * 256 + b2 * 65536 + b3 * 16777216
}

impl Entry {
    /// The entry's schema stream as little-endian `u32` words.
    pub fn schema_words(&self) -> (r: Vec<u32>)
        ensures
            r@ == le_words(self.schema_bytes@),
    {
        let blen = self.schema_bytes.len();
        let n = blen / 4;
        assert(4 * n <= self.schema_bytes@.len()) by (nonlinear_arith)
            requires
                n == self.schema_bytes@.len() / 4,
        ;
        let mut out: Vec<u32> = Vec::new();
        let mut i: usize = 0;
        while i < n
            invariant
                n == self.schema_bytes@.len() / 4,
                4 * n <= self.schema_bytes@.len(),
                blen == self.schema_bytes@.len(),
                i <= n,
                out@ =~= le_words(self.schema_bytes@).take(i as int),
            decreases n - i,
        {
            assert(4 * i + 4 <= 4 * n);
            out.push(read_le_u32(self.schema_bytes.as_slice(), 4 * i));
            i = i + 1;
        }
        out
    }
}

/// Statistics about a parse.
#[derive(Debug, Default, Clone)]
pub struct ParseStats {
    /// Number of entries successfully decoded.
    pub decoded: usize,
    /// Number of skipped entries per unrecognised format version.
    pub skipped_unknown_version: BTreeMap<u8, usize>,
}

/// Sum of the counts of the versions below `k`.
pub open spec fn sum_counts_below(m: Map<u8, usize>, k: nat) -> nat
    decreases k,
{
    if k == 0 {
        0
    } else {
        let v = (k - 1) as u8;
        sum_counts_below(m, (k - 1) as nat) + if m.contains_key(v) {
            m[v] as nat
        } else {
            0
        }
    }
}

/// Sum of all the counts of a version map.
pub open spec fn sum_counts(m: Map<u8, usize>) -> nat {
    sum_counts_below(m, 256)
}

impl ParseStats {
    /// Total number of skipped entries across all unknown versions.
    pub fn skipped_total(&self) -> (n: usize)
        requires
            sum_counts(self.skipped_unknown_version@) <= usize::MAX,
        ensures
            n == sum_counts(self.skipped_unknown_version@),
    {
        let ghost m = self.skipped_unknown_version@;
        let mut total: usize = 0;
        let mut k: u16 = 0;
        while k < 256
            invariant
                m == self.skipped_unknown_version@,
                k <= 256,
                total == sum_counts_below(m, k as nat),
                sum_counts(m) <= usize::MAX,
            decreases 256 - k,
        {
            proof {
                lemma_sum_counts_below_monotone(m, (k + 1) as nat, 256);
            }
            let key = k as u8;
            match self.skipped_unknown_version.get(&key) {
                Some(c) => {
                    total = total + *c;
                },
                None => {},
            }
            k = k + 1;
        }
        total
    }
}

proof fn lemma_sum_counts_below_monotone(m: Map<u8, usize>, a: nat, b: nat)
    requires
        a <= b,
    ensures
        sum_counts_below(m, a) <= sum_counts_below(m, b),
    decreases b,
{
    if a < b {
        lemma_sum_counts_below_monotone(m, a, (b - 1) as nat);
    }
}

/// Why a descriptor section was rejected.
#[derive(Debug, Clone, PartialEq, Eq)]
pub enum SectionError {
    /// A read of `need` bytes at `offset` with only `have` bytes left.
    UnexpectedEnd { offset: usize, need: usize, have: usize },
    /// The end of an entry body does not fit in a `usize`.
    BodyLenOverflow,
    /// An entry body declared to extend past the end of the section.
    BodyPastEnd { body_len: usize, section_len: usize },
    /// An entry with an empty shim name.
    EmptyShimName,
    /// A shim name that is not UTF-8.
    ShimNameNotUtf8,
    /// An entry whose kind byte is none of the known kinds.
    UnknownKind { name: String, kind: u8 },
    /// The byte length of a schema does not fit in a `usize`.
    SchemaWordCountOverflow,
    /// An entry whose decoded body is shorter than its declared length.
    BodyLengthMismatch { name: String, declared: usize, decoded: usize },
}

/// The plain value of a [`SectionError`].
pub enum SectionErrorView {
    UnexpectedEnd { offset: nat, need: nat, have: nat },
    BodyLenOverflow,
    BodyPastEnd { body_len: nat, section_len: nat },
    EmptyShimName,
    ShimNameNotUtf8,
    UnknownKind { name: Seq<char>, kind: u8 },
    SchemaWordCountOverflow,
    BodyLengthMismatch { name: Seq<char>, declared: nat, decoded: nat },
}

impl View for SectionError {
    type V = SectionErrorView;

    open spec fn view(&self) -> SectionErrorView {
        match self {
            SectionError::UnexpectedEnd { offset, need, have } => SectionErrorView::UnexpectedEnd {
                offset: *offset as nat,
                need: *need as nat,
                have: *have as nat,
            },
            SectionError::BodyLenOverflow => SectionErrorView::BodyLenOverflow,
            SectionError::BodyPastEnd { body_len, section_len } => SectionErrorView::BodyPastEnd {
                body_len: *body_len as nat,
                section_len: *section_len as nat,
            },
            SectionError::EmptyShimName => SectionErrorView::EmptyShimName,
            SectionError::ShimNameNotUtf8 => SectionErrorView::ShimNameNotUtf8,
            SectionError::UnknownKind { name, kind } => SectionErrorView::UnknownKind {
                name: name@,
                kind: *kind,
            },
            SectionError::SchemaWordCountOverflow => SectionErrorView::SchemaWordCountOverflow,
            SectionError::BodyLengthMismatch { name, declared, decoded } =>
                SectionErrorView::BodyLengthMismatch {
                name: name@,
                declared: *declared as nat,
                decoded: *decoded as nat,
            },
        }
    }
}

/// The message of a section error.
pub open spec fn section_message(e: SectionErrorView) -> Seq<char> {
    match e {
        SectionErrorView::UnexpectedEnd { offset, need, have } => "unexpected end of descriptor section at offset "@
            + decimal(offset) + " (need "@ + decimal(need) + " bytes, have "@ + decimal(have) + ")"@,
        SectionErrorView::BodyLenOverflow => "descriptor entry body_len overflows section"@,
        SectionErrorView::BodyPastEnd { body_len, section_len } => "descriptor entry declares body_byte_len = "@
            + decimal(body_len) + ", which extends past the section end ("@ + decimal(section_len)
            + " bytes). This usually means the wasm was produced by a wasm-bindgen older than this CLI and uses an incompatible __wasm_bindgen_descriptors layout. Rebuild the wasm with a matching wasm-bindgen version."@,
        SectionErrorView::EmptyShimName => "descriptor entry has empty shim name"@,
        SectionErrorView::ShimNameNotUtf8 => "descriptor entry shim name is not UTF-8"@,
        SectionErrorView::UnknownKind { name, kind } => "descriptor entry for "@ + debug_quoted(name)
            + " has unknown kind byte "@ + decimal(kind as nat),
        SectionErrorView::SchemaWordCountOverflow => "descriptor schema_word_count overflows"@,
        SectionErrorView::BodyLengthMismatch { name, declared, decoded } => "descriptor entry "@
            + debug_quoted(name) + ": declared body length "@ + decimal(declared)
            + " does not match decoded body length "@ + decimal(decoded),
    }
}

impl SectionError {
    /// The error's message.
    pub fn message(&self) -> (s: String)
        ensures
            s@ == section_message(self@),
    {
        let mut s = String::new();
        match self {
            SectionError::UnexpectedEnd { offset, need, have } => {
                push_text(&mut s, "unexpected end of descriptor section at offset ");
                push_decimal(&mut s, *offset as u64);
                push_text(&mut s, " (need ");
                push_decimal(&mut s, *need as u64);
                push_text(&mut s, " bytes, have ");
                push_decimal(&mut s, *have as u64);
                push_text(&mut s, ")");
            },
            SectionError::BodyLenOverflow => push_text(&mut s, "descriptor entry body_len overflows section"),
            SectionError::BodyPastEnd { body_len, section_len } => {
                push_text(&mut s, "descriptor entry declares body_byte_len = ");
                push_decimal(&mut s, *body_len as u64);
                push_text(&mut s, ", which extends past the section end (");
                push_decimal(&mut s, *section_len as u64);
                push_text(&mut s, " bytes). This usually means the wasm was produced by a wasm-bindgen older than this CLI and uses an incompatible __wasm_bindgen_descriptors layout. Rebuild the wasm with a matching wasm-bindgen version.");
            },
            SectionError::EmptyShimName => push_text(&mut s, "descriptor entry has empty shim name"),
            SectionError::ShimNameNotUtf8 => push_text(&mut s, "descriptor entry shim name is not UTF-8"),
            SectionError::UnknownKind { name, kind } => {
                push_text(&mut s, "descriptor entry for ");
                push_debug_quoted(&mut s, name.as_str());
                push_text(&mut s, " has unknown kind byte ");
                push_decimal(&mut s, *kind as u64);
            },
            SectionError::SchemaWordCountOverflow => push_text(&mut s, "descriptor schema_word_count overflows"),
            SectionError::BodyLengthMismatch { name, declared, decoded } => {
                push_text(&mut s, "descriptor entry ");
                push_debug_quoted(&mut s, name.as_str());
                push_text(&mut s, ": declared body length ");
                push_decimal(&mut s, *declared as u64);
                push_text(&mut s, " does not match decoded body length ");
                push_decimal(&mut s, *decoded as u64);
            },
        }
        proof {
            assert(s@ =~= section_message(self@));
        }
        s
    }
}

/// The error for a read of `n` bytes at `pos` past the end of `s`.
pub open spec fn end_error(s: Seq<u8>, pos: nat, n: nat) -> SectionErrorView {
    SectionErrorView::UnexpectedEnd { offset: pos, need: n, have: (s.len() - pos) as nat }
}

/// Whether a kind byte is one of the known entry kinds.
pub open spec fn is_known_kind(kind: u8) -> bool {
    kind == DESCRIPTOR_KIND_REGULAR || kind == DESCRIPTOR_KIND_CAST || kind
        == DESCRIPTOR_KIND_STATIC
}

/// Decodes the body of a current-version entry starting at `p`: the entry
/// and the position just after it, or the error that stops the parse.
pub open spec fn spec_decode_entry(s: Seq<u8>, p: nat) -> Result<(EntryView, nat), SectionErrorView> {
    if p + 1 > s.len() {
        Err(end_error(s, p, 1))
    } else {
        let name_len = s[p as int] as nat;
        let p1 = p + 1;
        if name_len == 0 {
            Err(SectionErrorView::EmptyShimName)
        } else if p1 + name_len > s.len() {
            Err(end_error(s, p1, name_len))
        } else {
            let name_bytes = s.subrange(p1 as int, (p1 + name_len) as int);
            let p2 = p1 + name_len;
            if !valid_utf8(name_bytes) {
                Err(SectionErrorView::ShimNameNotUtf8)
            } else if p2 + 1 > s.len() {
                Err(end_error(s, p2, 1))
            } else {
                let name = decode_utf8(name_bytes);
                let kind = s[p2 as int];
                let p3 = p2 + 1;
                if !is_known_kind(kind) {
                    Err(SectionErrorView::UnknownKind { name, kind })
                } else if p3 + 4 > s.len() {
                    Err(end_error(s, p3, 4))
                } else {
                    let byte_count = le_u32(s, p3 as int) * 4;
                    let p4 = p3 + 4;
                    if byte_count > usize::MAX {
                        Err(SectionErrorView::SchemaWordCountOverflow)
                    } else if p4 + byte_count > s.len() {
                        Err(end_error(s, p4, byte_count))
                    } else {
                        Ok(
                            (
                                EntryView {
                                    name,
                                    kind,
                                    schema_bytes: s.subrange(p4 as int, (p4 + byte_count) as int),
                                },
                                p4 + byte_count,
                            ),
                        )
                    }
                }
            }
        }
    }
}

/// The count recorded for a version after one more skipped entry.
pub open spec fn bump_count(m: Map<u8, usize>, v: u8) -> Map<u8, usize> {
    let old_count: nat = if m.contains_key(v) { m[v] as nat } else { 0 };
    m.insert(v, (old_count + 1) as usize)
}

/// Parses the entries of `s` from position `pos` on, given the entries
/// decoded and the versions skipped so far.
pub open spec fn spec_parse_from(
    s: Seq<u8>,
    pos: nat,
    entries: Seq<EntryView>,
    decoded: nat,
    skipped: Map<u8, usize>,
) -> Result<(Seq<EntryView>, nat, Map<u8, usize>), SectionErrorView>
    decreases s.len() - pos,
{
    if pos >= s.len() {
        Ok((entries, decoded, skipped))
    } else {
        let version = s[pos as int];
        if pos + 5 > s.len() {
            Err(end_error(s, pos + 1, 4))
        } else {
            let body_len = le_u32(s, (pos + 1) as int);
            let body_start = pos + 5;
            let body_finish = body_start + body_len;
            if body_finish > usize::MAX {
                Err(SectionErrorView::BodyLenOverflow)
            } else if body_finish > s.len() {
                Err(SectionErrorView::BodyPastEnd { body_len, section_len: s.len() })
            } else if version != DESCRIPTOR_FORMAT_VERSION {
                spec_parse_from(s, body_finish, entries, decoded, bump_count(skipped, version))
            } else {
                match spec_decode_entry(s, body_start) {
                    Err(e) => Err(e),
                    Ok((e, next)) => if next != body_finish {
                        Err(
                            SectionErrorView::BodyLengthMismatch {
                                name: e.name,
                                declared: body_len,
                                decoded: (next - body_start) as nat,
                            },
                        )
                    } else {
                        spec_parse_from(s, body_finish, entries.push(e), decoded + 1, skipped)
                    },
                }
            }
        }
    }
}

/// The result of parsing a whole section: the decoded entries, their
/// number and the count of skipped entries per unknown version.
pub open spec fn spec_parse(s: Seq<u8>) -> Result<
    (Seq<EntryView>, nat, Map<u8, usize>),
    SectionErrorView,
> {
    spec_parse_from(s, 0, Seq::empty(), 0, Map::empty())
}

/// The four little-endian bytes of `n`.
pub open spec fn le_bytes(n: nat) -> Seq<u8> {
    seq![(n % 256) as u8, ((n / 256) % 256) as u8, ((n / 65536) % 256) as u8, ((n / 16777216) % 256) as u8]
}

/// An entry framed with a format version: the version byte, the body
/// length as a little-endian `u32`, and the body.
pub open spec fn framed(version: u8, body: Seq<u8>) -> Seq<u8> {
    seq![version] + le_bytes(body.len()) + body
}

proof fn lemma_le_bytes(n: nat)
    requires
        n <= u32::MAX,
    ensures
        le_u32(le_bytes(n), 0) == n,
{
    let b = le_bytes(n);
    assert(b[0] as nat == n % 256);
    assert(b[1] as nat == (n / 256) % 256);
    assert(b[2] as nat == (n / 65536) % 256);
    assert(b[3] as nat == (n / 16777216) % 256);
    assert((n % 256) + ((n / 256) % 256) * 256 + ((n / 65536) % 256) * 65536 + ((n / 16777216) % 256) * 16777216 == n) by (nonlinear_arith)
        requires
            n <= u32::MAX,
    {
        vstd::arithmetic::div_mod::lemma_fundamental_div_mod(n as int, 256);
        vstd::arithmetic::div_mod::lemma_fundamental_div_mod((n / 256) as int, 256);
        vstd::arithmetic::div_mod::lemma_fundamental_div_mod((n / 65536) as int, 256);
        vstd::arithmetic::div_mod::lemma_div_denominator(n as int, 256, 256);
        vstd::arithmetic::div_mod::lemma_div_denominator(n as int, 65536, 256);
        vstd::arithmetic::div_mod::lemma_div_is_ordered_by_denominator(n as int, 16777216, 0x1_0000_0000);
    }
}

/// The little-endian bytes of a list of words, one after another.
pub open spec fn words_bytes(w: Seq<u32>) -> Seq<u8>
    decreases w.len(),
{
    if w.len() == 0 {
        seq![]
    } else {
        words_bytes(w.drop_last()) + le_bytes(w.last() as nat)
    }
}

proof fn lemma_words_bytes(w: Seq<u32>)
    ensures
        words_bytes(w).len() == 4 * w.len(),
        forall|i: int, j: int|
            0 <= i < w.len() && 0 <= j < 4 ==> #[trigger] words_bytes(w)[4 * i + j] == le_bytes(
                w[i] as nat,
            )[j],
    decreases w.len(),
{
    if w.len() > 0 {
        let t = w.drop_last();
        lemma_words_bytes(t);
        assert forall|i: int, j: int| 0 <= i < w.len() && 0 <= j < 4 implies #[trigger] words_bytes(w)[4 * i
            + j] == le_bytes(w[i] as nat)[j] by {
            if i < t.len() {
                assert(t[i] == w[i]);
                assert(words_bytes(t)[4 * i + j] == le_bytes(t[i] as nat)[j]);
            }
        }
    }
}

/// Reading the words of a schema stream gives back the words it was
/// written from: the little-endian bytes of words read back as those
/// words.
pub proof fn lemma_schema_words_round_trip(w: Seq<u32>)
    ensures
        le_words(words_bytes(w)) == w,
{
    lemma_words_bytes(w);
    let b = words_bytes(w);
    assert(b.len() / 4 == w.len()) by (nonlinear_arith)
        requires
            b.len() == 4 * w.len(),
    ;
    assert forall|i: int| 0 <= i < w.len() implies le_u32(b, 4 * i) == w[i] by {
        lemma_le_bytes(w[i] as nat);
        assert(b[4 * i + 0] == le_bytes(w[i] as nat)[0]);
        assert(b[4 * i + 1] == le_bytes(w[i] as nat)[1]);
        assert(b[4 * i + 2] == le_bytes(w[i] as nat)[2]);
        assert(b[4 * i + 3] == le_bytes(w[i] as nat)[3]);
    }
    assert(le_words(b) =~= w);
}

/// Decoding an entry body does not depend on what precedes the section:
/// in `p + r`, an entry at `p.len() + q` decodes as the one at `q` in `r`,
/// ending `p.len()` bytes further.
proof fn lemma_decode_shift(p: Seq<u8>, r: Seq<u8>, q: nat)
    ensures
        match spec_decode_entry(r, q) {
            Ok((e, n)) => spec_decode_entry(p + r, p.len() + q) == Ok::<(EntryView, nat), SectionErrorView>((e, p.len() + n)),
            Err(_) => spec_decode_entry(p + r, p.len() + q) is Err,
        },
{
    let s = p + r;
    let k = p.len();
    assert forall|i: int| 0 <= i < r.len() implies #[trigger] s[k + i] == r[i] by {}
    if q + 1 <= r.len() {
        let name_len = r[q as int] as nat;
        let p1 = q + 1;
        if name_len > 0 && p1 + name_len <= r.len() {
            assert(s.subrange((k + p1) as int, (k + p1 + name_len) as int) =~= r.subrange(p1 as int, (p1 + name_len) as int));
            let p2 = p1 + name_len;
            if p2 + 1 <= r.len() {
                let p3 = p2 + 1;
                if p3 + 4 <= r.len() {
                    assert(le_u32(s, (k + p3) as int) == le_u32(r, p3 as int));
                    let byte_count = le_u32(r, p3 as int) * 4;
                    let p4 = p3 + 4;
                    if p4 + byte_count <= r.len() {
                        assert(s.subrange((k + p4) as int, (k + p4 + byte_count) as int) =~= r.subrange(p4 as int, (p4 + byte_count) as int));
                    }
                }
            }
        }
    }
}

/// Parsing does not depend on what precedes the section: from position
/// `p.len() + pos` of `p + r`, the parse succeeds exactly when it does
/// from `pos` in `r`, with the same outcome.
proof fn lemma_parse_shift(
    p: Seq<u8>,
    r: Seq<u8>,
    pos: nat,
    entries: Seq<EntryView>,
    decoded: nat,
    skipped: Map<u8, usize>,
)
    requires
        p.len() + r.len() < usize::MAX,
    ensures
        spec_parse_from(p + r, p.len() + pos, entries, decoded, skipped) is Ok <==> spec_parse_from(r, pos, entries, decoded, skipped) is Ok,
        spec_parse_from(r, pos, entries, decoded, skipped) is Ok ==> spec_parse_from(p + r, p.len() + pos, entries, decoded, skipped)
            == spec_parse_from(r, pos, entries, decoded, skipped),
    decreases r.len() - pos,
{
    let s = p + r;
    let k = p.len();
    assert forall|i: int| 0 <= i < r.len() implies #[trigger] s[k + i] == r[i] by {}
    if pos < r.len() && pos + 5 <= r.len() {
        assert(le_u32(s, (k + pos + 1) as int) == le_u32(r, (pos + 1) as int));
        let body_len = le_u32(r, (pos + 1) as int);
        let body_finish = pos + 5 + body_len;
        if body_finish <= r.len() {
            let version = r[pos as int];
            if version != DESCRIPTOR_FORMAT_VERSION {
                lemma_parse_shift(p, r, body_finish, entries, decoded, bump_count(skipped, version));
            } else {
                lemma_decode_shift(p, r, pos + 5);
                match spec_decode_entry(r, pos + 5) {
                    Ok((e, next)) => {
                        if next == body_finish {
                            lemma_parse_shift(p, r, body_finish, entries.push(e), decoded + 1, skipped);
                        }
                    },
                    Err(_) => {},
                }
            }
        }
    }
}

/// Forward compatibility: an entry of an unknown format version is skipped
/// whole, whatever its body holds. A section that starts with such an
/// entry parses exactly when the rest of it does, and then to the same
/// entries as the rest, with the unknown version counted once as skipped.
pub proof fn lemma_unknown_version_entry_is_skipped(version: u8, body: Seq<u8>, rest: Seq<u8>)
    requires
        version != DESCRIPTOR_FORMAT_VERSION,
        body.len() <= u32::MAX,
        framed(version, body).len() + rest.len() < usize::MAX,
    ensures
        spec_parse(framed(version, body) + rest) is Ok <==> spec_parse_from(rest, 0, seq![], 0, bump_count(Map::empty(), version)) is Ok,
        spec_parse(framed(version, body) + rest) is Ok ==> spec_parse(framed(version, body) + rest) == spec_parse_from(
            rest,
            0,
            seq![],
            0,
            bump_count(Map::empty(), version),
        ),
{
    let f = framed(version, body);
    let s = f + rest;
    lemma_le_bytes(body.len());
    assert(s[0] == version);
    assert(le_u32(s, 1) == le_u32(le_bytes(body.len()), 0));
    assert(f.len() == 5 + body.len());
    lemma_parse_shift(f, rest, 0, seq![], 0, bump_count(Map::empty(), version));
    assert(f.len() + 0 == f.len());
}

/// The body of a current-version entry: the name's length and bytes, the
/// kind, the number of schema words and the words, little-endian.
pub open spec fn entry_body(name: Seq<u8>, kind: u8, words: Seq<u32>) -> Seq<u8> {
    seq![name.len() as u8] + name + seq![kind] + le_bytes(words.len()) + words_bytes(words)
}

/// The entry that such a body describes.
pub open spec fn body_entry(name: Seq<u8>, kind: u8, words: Seq<u32>) -> EntryView {
    EntryView { name: decode_utf8(name), kind, schema_bytes: words_bytes(words) }
}

proof fn lemma_body_decodes(name: Seq<u8>, kind: u8, words: Seq<u32>, rest: Seq<u8>)
    requires
        1 <= name.len() <= 255,
        valid_utf8(name),
        is_known_kind(kind),
        entry_body(name, kind, words).len() <= u32::MAX,
        entry_body(name, kind, words).len() + rest.len() < usize::MAX,
    ensures
        spec_decode_entry(entry_body(name, kind, words) + rest, 0) == Ok::<(EntryView, nat), SectionErrorView>(
            (body_entry(name, kind, words), entry_body(name, kind, words).len()),
        ),
{
    let body = entry_body(name, kind, words);
    let s = body + rest;
    let n: int = name.len() as int;
    let w: int = words.len() as int;
    let wb = words_bytes(words);
    lemma_words_bytes(words);
    assert(wb.len() == 4 * w);
    let lb = le_bytes(words.len());
    assert(body == seq![n as u8] + name + seq![kind] + lb + wb);
    assert(body.len() == 6 + n + 4 * w);
    assert(w <= u32::MAX);
    lemma_le_bytes(words.len());
    assert(s[0] as int == n);
    assert(s.subrange(1, 1 + n) =~= name);
    assert(s[1 + n] == kind);
    assert(s.subrange(2 + n, 6 + n) =~= lb);
    assert(le_u32(s, 2 + n) == le_u32(lb, 0));
    assert(s.subrange(6 + n, 6 + n + 4 * w) =~= wb);
}

/// A current-version entry written with a non-empty UTF-8 name of at most
/// 255 bytes, a known kind and its schema words is read back: a section
/// that starts with it parses exactly when the rest does (with the entry
/// counted), and then to the entry followed by the rest's entries.
pub proof fn lemma_written_entry_is_read_back(
    name: Seq<u8>,
    kind: u8,
    words: Seq<u32>,
    rest: Seq<u8>,
    entries: Seq<EntryView>,
    decoded: nat,
    skipped: Map<u8, usize>,
)
    requires
        1 <= name.len() <= 255,
        valid_utf8(name),
        is_known_kind(kind),
        entry_body(name, kind, words).len() <= u32::MAX,
        framed(DESCRIPTOR_FORMAT_VERSION, entry_body(name, kind, words)).len() + rest.len() < usize::MAX,
    ensures
        ({
            let s = framed(DESCRIPTOR_FORMAT_VERSION, entry_body(name, kind, words)) + rest;
            let after = spec_parse_from(rest, 0, entries.push(body_entry(name, kind, words)), decoded + 1, skipped);
            &&& spec_parse_from(s, 0, entries, decoded, skipped) is Ok <==> after is Ok
            &&& after is Ok ==> spec_parse_from(s, 0, entries, decoded, skipped) == after
        }),
{
    let body = entry_body(name, kind, words);
    let e = body_entry(name, kind, words);
    let head = seq![DESCRIPTOR_FORMAT_VERSION] + le_bytes(body.len());
    let f = framed(DESCRIPTOR_FORMAT_VERSION, body);
    let s = f + rest;
    assert(f == head + body);
    assert(s =~= head + (body + rest));
    lemma_le_bytes(body.len());
    assert(head.len() == 5);
    assert(s[0] == DESCRIPTOR_FORMAT_VERSION);
    assert(s.subrange(1, 5) =~= le_bytes(body.len()));
    assert(le_u32(s, 1) == le_u32(le_bytes(body.len()), 0));
    lemma_body_decodes(name, kind, words, rest);
    lemma_decode_shift(head, body + rest, 0);
    assert(spec_decode_entry(s, 5) == Ok::<(EntryView, nat), SectionErrorView>((e, 5 + body.len())));
    assert(f.len() == 5 + body.len());
    lemma_parse_shift(f, rest, 0, entries.push(e), decoded + 1, skipped);
    assert(f.len() + 0 == f.len());
}

/// One frame of a section, as it is written: a current-version entry by
/// its name, kind and schema words, or an entry of another version with
/// any body.
pub enum FrameView {
    Current { name: Seq<u8>, kind: u8, words: Seq<u32> },
    Unknown { version: u8, body: Seq<u8> },
}

/// The bytes of a frame.
pub open spec fn frame_bytes(f: FrameView) -> Seq<u8> {
    match f {
        FrameView::Current { name, kind, words } => framed(DESCRIPTOR_FORMAT_VERSION, entry_body(name, kind, words)),
        FrameView::Unknown { version, body } => framed(version, body),
    }
}

/// The bytes of frames, one after another.
pub open spec fn frames_bytes(fs: Seq<FrameView>) -> Seq<u8>
    decreases fs.len(),
{
    if fs.len() == 0 {
        seq![]
    } else {
        frame_bytes(fs[0]) + frames_bytes(fs.drop_first())
    }
}

/// Whether a frame is well formed: a current entry with a non-empty UTF-8
/// name of at most 255 bytes and a known kind, or another version; each
/// body's length fits in a `u32`.
pub open spec fn frame_wf(f: FrameView) -> bool {
    match f {
        FrameView::Current { name, kind, words } => 1 <= name.len() <= 255 && valid_utf8(name)
            && is_known_kind(kind) && entry_body(name, kind, words).len() <= u32::MAX,
        FrameView::Unknown { version, body } => version != DESCRIPTOR_FORMAT_VERSION && body.len()
            <= u32::MAX,
    }
}

/// What parsing frames gives, after the entries, count and skips so far:
/// each current entry is added, each other version counted as skipped.
pub open spec fn parsed_frames(
    fs: Seq<FrameView>,
    entries: Seq<EntryView>,
    decoded: nat,
    skipped: Map<u8, usize>,
) -> (Seq<EntryView>, nat, Map<u8, usize>)
    decreases fs.len(),
{
    if fs.len() == 0 {
        (entries, decoded, skipped)
    } else {
        match fs[0] {
            FrameView::Current { name, kind, words } => parsed_frames(
                fs.drop_first(),
                entries.push(body_entry(name, kind, words)),
                decoded + 1,
                skipped,
            ),
            FrameView::Unknown { version, body } => parsed_frames(
                fs.drop_first(),
                entries,
                decoded,
                bump_count(skipped, version),
            ),
        }
    }
}

proof fn lemma_unknown_frame_skipped_from(
    version: u8,
    body: Seq<u8>,
    rest: Seq<u8>,
    entries: Seq<EntryView>,
    decoded: nat,
    skipped: Map<u8, usize>,
)
    requires
        version != DESCRIPTOR_FORMAT_VERSION,
        body.len() <= u32::MAX,
        framed(version, body).len() + rest.len() < usize::MAX,
    ensures
        spec_parse_from(framed(version, body) + rest, 0, entries, decoded, skipped) is Ok <==> spec_parse_from(
            rest,
            0,
            entries,
            decoded,
            bump_count(skipped, version),
        ) is Ok,
        spec_parse_from(rest, 0, entries, decoded, bump_count(skipped, version)) is Ok ==> spec_parse_from(
            framed(version, body) + rest,
            0,
            entries,
            decoded,
            skipped,
        ) == spec_parse_from(rest, 0, entries, decoded, bump_count(skipped, version)),
{
    let f = framed(version, body);
    let s = f + rest;
    lemma_le_bytes(body.len());
    assert(s[0] == version);
    assert(le_u32(s, 1) == le_u32(le_bytes(body.len()), 0));
    assert(f.len() == 5 + body.len());
    lemma_parse_shift(f, rest, 0, entries, decoded, bump_count(skipped, version));
    assert(f.len() + 0 == f.len());
}

proof fn lemma_frames_parse_from(
    fs: Seq<FrameView>,
    entries: Seq<EntryView>,
    decoded: nat,
    skipped: Map<u8, usize>,
)
    requires
        forall|i: int| 0 <= i < fs.len() ==> frame_wf(#[trigger] fs[i]),
        frames_bytes(fs).len() < usize::MAX,
    ensures
        spec_parse_from(frames_bytes(fs), 0, entries, decoded, skipped) == Ok::<
            (Seq<EntryView>, nat, Map<u8, usize>),
            SectionErrorView,
        >(parsed_frames(fs, entries, decoded, skipped)),
    decreases fs.len(),
{
    if fs.len() > 0 {
        let rest = fs.drop_first();
        assert forall|i: int| 0 <= i < rest.len() implies frame_wf(#[trigger] rest[i]) by {
            assert(rest[i] == fs[i + 1]);
        }
        assert(frame_wf(fs[0]));
        match fs[0] {
            FrameView::Current { name, kind, words } => {
                let e = body_entry(name, kind, words);
                lemma_frames_parse_from(rest, entries.push(e), decoded + 1, skipped);
                lemma_written_entry_is_read_back(name, kind, words, frames_bytes(rest), entries, decoded, skipped);
            },
            FrameView::Unknown { version, body } => {
                lemma_frames_parse_from(rest, entries, decoded, bump_count(skipped, version));
                lemma_unknown_frame_skipped_from(version, body, frames_bytes(rest), entries, decoded, skipped);
            },
        }
    }
}

/// A section written as well-formed frames parses back: to the entries of
/// its current-version frames, in order, with their number, and each
/// other version counted once per frame as skipped.
pub proof fn lemma_written_section_parses_back(fs: Seq<FrameView>)
    requires
        forall|i: int| 0 <= i < fs.len() ==> frame_wf(#[trigger] fs[i]),
        frames_bytes(fs).len() < usize::MAX,
    ensures
        spec_parse(frames_bytes(fs)) == Ok::<(Seq<EntryView>, nat, Map<u8, usize>), SectionErrorView>(
            parsed_frames(fs, seq![], 0, Map::empty()),
        ),
{
    lemma_frames_parse_from(fs, seq![], 0, Map::empty());
}

/// Reads `bytes` as UTF-8 with `std::str::from_utf8`.
///
/// The contract claims what the standard library documents: the bytes are
/// accepted exactly when they are valid UTF-8, and then the string slice
/// holds the decoded characters.
#[verifier::external_body]
fn utf8_str(bytes: &[u8]) -> (r: Option<&str>)
    ensures
        r is Some <==> valid_utf8(bytes@),
        r matches Some(s) ==> s@ == decode_utf8(bytes@),
{
    std::str::from_utf8(bytes).ok()
}

/// A cursor over the section bytes.
pub struct Reader<'a> {
    pub buf: &'a [u8],
    pub pos: usize,
}

impl<'a> Reader<'a> {
    /// A reader at the start of `buf`.
    pub fn new(buf: &'a [u8]) -> (r: Self)
        ensures
            r.buf@ == buf@,
            r.pos == 0,
    {
        Reader { buf, pos: 0 }
    }

    /// Succeeds when `n` more bytes are available.
    pub fn need(&self, n: usize) -> (r: Result<(), SectionError>)
        requires
            self.pos <= self.buf@.len() < usize::MAX,
        ensures
            r is Ok <==> self.pos + n <= self.buf@.len(),
            r matches Err(e) ==> e@ == end_error(self.buf@, self.pos as nat, n as nat),
    {
        if self.pos > usize::MAX - n || self.pos + n > self.buf.len() {
            Err(
                SectionError::UnexpectedEnd {
                    offset: self.pos,
                    need: n,
                    have: self.buf.len() - self.pos,
                },
            )
        } else {
            Ok(())
        }
    }

    /// Reads one byte.
    pub fn u8(&mut self) -> (r: Result<u8, SectionError>)
        requires
            old(self).pos <= old(self).buf@.len() < usize::MAX,
        ensures
            final(self).buf == old(self).buf,
            match r {
                Ok(b) => old(self).pos + 1 <= old(self).buf@.len() && b == old(self).buf@[old(
                    self,
                ).pos as int] && final(self).pos == old(self).pos + 1,
                Err(e) => old(self).pos + 1 > old(self).buf@.len() && e@ == end_error(
                    old(self).buf@,
                    old(self).pos as nat,
                    1,
                ) && final(self).pos == old(self).pos,
            },
    {
        self.need(1)?;
        let b = self.buf[self.pos];
        self.pos = self.pos + 1;
        Ok(b)
    }

    /// Reads a little-endian `u32`.
    pub fn u32(&mut self) -> (r: Result<u32, SectionError>)
        requires
            old(self).pos <= old(self).buf@.len() < usize::MAX,
        ensures
            final(self).buf == old(self).buf,
            match r {
                Ok(w) => old(self).pos + 4 <= old(self).buf@.len() && w as nat == le_u32(
                    old(self).buf@,
                    old(self).pos as int,
                ) && final(self).pos == old(self).pos + 4,
                Err(e) => old(self).pos + 4 > old(self).buf@.len() && e@ == end_error(
                    old(self).buf@,
                    old(self).pos as nat,
                    4,
                ) && final(self).pos == old(self).pos,
            },
    {
        self.need(4)?;
        let w = read_le_u32(self.buf, self.pos);
        self.pos = self.pos + 4;
        Ok(w)
    }

    /// Reads `n` bytes.
    pub fn bytes(&mut self, n: usize) -> (r: Result<&'a [u8], SectionError>)
        requires
            old(self).pos <= old(self).buf@.len() < usize::MAX,
        ensures
            final(self).buf == old(self).buf,
            match r {
                Ok(out) => old(self).pos + n <= old(self).buf@.len() && out@ == old(
                    self,
                ).buf@.subrange(old(self).pos as int, old(self).pos + n) && final(self).pos
                    == old(self).pos + n,
                Err(e) => old(self).pos + n > old(self).buf@.len() && e@ == end_error(
                    old(self).buf@,
                    old(self).pos as nat,
                    n as nat,
                ) && final(self).pos == old(self).pos,
            },
    {
        self.need(n)?;
        let out = &self.buf[self.pos..self.pos + n];
        self.pos = self.pos + n;
        Ok(out)
    }
}

/// Decodes one current-version entry body at the reader's position.
fn decode_entry(r: &mut Reader) -> (res: Result<Entry, SectionError>)
    requires
        old(r).pos <= old(r).buf@.len() < usize::MAX,
    ensures
        final(r).buf == old(r).buf,
        final(r).pos <= final(r).buf@.len(),
        match spec_decode_entry(old(r).buf@, old(r).pos as nat) {
            Ok((e, next)) => res matches Ok(entry) && entry@ == e && final(r).pos == next,
            Err(err) => res matches Err(e) && e@ == err,
        },
{
    let ghost s = r.buf@;
    let ghost p = r.pos as nat;
    let name_len = r.u8()? as usize;
    if name_len == 0 {
        return Err(SectionError::EmptyShimName);
    }
    let name_bytes = r.bytes(name_len)?;
    let name = match utf8_str(name_bytes) {
        Some(n) => n.to_owned(),
        None => {
            return Err(SectionError::ShimNameNotUtf8);
        },
    };
    let kind = r.u8()?;
    if kind != DESCRIPTOR_KIND_REGULAR && kind != DESCRIPTOR_KIND_CAST && kind
        != DESCRIPTOR_KIND_STATIC {
        return Err(SectionError::UnknownKind { name, kind });
    }
    let word_count = r.u32()? as usize;
    if word_count > usize::MAX / 4 {
        return Err(SectionError::SchemaWordCountOverflow);
    }
    let byte_count = word_count * 4;
    let schema = r.bytes(byte_count)?;
    let schema_bytes = vstd::slice::slice_to_vec(schema);
    Ok(Entry { name, kind, schema_bytes })
}

/// Parses the raw bytes of a `__wasm_bindgen_descriptors` custom section
/// into the decoded entries, plus statistics about the entries skipped for
/// an unknown format version.
pub fn parse(section: &[u8]) -> (res: Result<(Vec<Entry>, ParseStats), SectionError>)
    requires
        section@.len() < usize::MAX,
    ensures
        match spec_parse(section@) {
            Ok((entries, decoded, skipped)) => res matches Ok((es, stats)) && es@.map_values(
                |e: Entry| e@,
            ) == entries && stats.decoded == decoded && stats.skipped_unknown_version@
                == skipped,
            Err(err) => res matches Err(e) && e@ == err,
        },
{
    let mut r = Reader::new(section);
    let body_end = section.len();
    let ghost s = section@;
    let mut entries: Vec<Entry> = Vec::new();
    let mut stats = ParseStats { decoded: 0, skipped_unknown_version: BTreeMap::new() };
    assert(entries@.map_values(|e: Entry| e@) =~= Seq::<EntryView>::empty());
    assert(stats.skipped_unknown_version@ =~= Map::<u8, usize>::empty());
    while r.pos < body_end
        invariant
            r.buf@ == s,
            section@ == s,
            body_end == s.len(),
            s.len() < usize::MAX,
            r.pos <= s.len(),
            stats.decoded <= r.pos,
            forall|v: u8|
                stats.skipped_unknown_version@.contains_key(v) ==> stats.skipped_unknown_version@[v]
                    <= r.pos,
            spec_parse(s) == spec_parse_from(
                s,
                r.pos as nat,
                entries@.map_values(|e: Entry| e@),
                stats.decoded as nat,
                stats.skipped_unknown_version@,
            ),
        decreases s.len() - r.pos,
    {
        let ghost pos0 = r.pos as nat;
        let ghost ev = entries@.map_values(|e: Entry| e@);
        let format_version = r.u8()?;
        let ghost sk = stats.skipped_unknown_version@;
        let ghost dc = stats.decoded as nat;
        assert(spec_parse(s) == spec_parse_from(s, pos0, ev, dc, sk));
        let body_len_word = match r.u32() {
            Ok(w) => w,
            Err(e) => {
                assert(pos0 + 5 > s.len());
                assert(e@ == end_error(s, pos0 + 1, 4));
                assert(spec_parse_from(s, pos0, ev, dc, sk) == Err::<(Seq<EntryView>, nat, Map<u8, usize>), SectionErrorView>(end_error(s, pos0 + 1, 4)));
                return Err(e);
            },
        };
        let body_len = body_len_word as usize;
        let body_start = r.pos;
        if body_start > usize::MAX - body_len {
            return Err(SectionError::BodyLenOverflow);
        }
        let body_finish = body_start + body_len;
        if body_finish > body_end {
            return Err(SectionError::BodyPastEnd { body_len, section_len: body_end });
        }
        if format_version != DESCRIPTOR_FORMAT_VERSION {
            let ghost before = stats.skipped_unknown_version@;
            let old_count: usize = match stats.skipped_unknown_version.get(&format_version) {
                Some(c) => *c,
                None => 0,
            };
            stats.skipped_unknown_version.insert(format_version, old_count + 1);
            r.pos = body_finish;
            proof {
                assert(stats.skipped_unknown_version@ == bump_count(before, format_version));
            }
            continue;
        }
        let entry = decode_entry(&mut r)?;
        if r.pos != body_finish {
            return Err(
                SectionError::BodyLengthMismatch {
                    name: entry.name,
                    declared: body_len,
                    decoded: r.pos - body_start,
                },
            );
        }
        entries.push(entry);
        stats.decoded = stats.decoded + 1;
        proof {
            assert(entries@.map_values(|e: Entry| e@) =~= ev.push(entry@));
        }
    }
    Ok((entries, stats))
}

} // verus!
