//! Helpers of the JavaScript and TypeScript generator: doc comments, the
//! members and field declarations of exported classes, memory views, ES
//! imports, the tree of (namespaced) module exports, fresh identifiers, and
//! the check that a class field has at most one getter and one setter.

use vstd::prelude::*;
use crate::strings::{chars_lt, escape_default_text, push_escape_default, lemma_chars_total, lemma_chars_trans, text_lt, decimal, lemma_decimal_injective, lemma_decimal_nonempty, push_char, push_decimal, push_text, text_is, to_chars};
use crate::descriptor::{is_valid_ident, spec_is_valid_ident};
use crate::keyed::{entries, entries_map, find_key, keys_distinct, lemma_entries_map, set_entry, take_at};

verus! {

/// The position of the first `\n` at or after `start`, or the length of
/// `s` if there is none.
pub open spec fn next_newline(s: Seq<char>, start: nat) -> nat
    decreases s.len() - start,
{
    if start >= s.len() {
        s.len()
    } else if s[start as int] == '\n' {
        start
    } else {
        next_newline(s, start + 1)
    }
}

pub proof fn lemma_next_newline(s: Seq<char>, start: nat)
    requires
        start <= s.len(),
    ensures
        start <= next_newline(s, start) <= s.len(),
        next_newline(s, start) < s.len() ==> s[next_newline(s, start) as int] == '\n',
        forall|k: int| start <= k < next_newline(s, start) ==> s[k] != '\n',
    decreases s.len() - start,
{
    if start < s.len() && s[start as int] != '\n' {
        lemma_next_newline(s, start + 1);
    }
}

/// One line as `str::lines` yields it: the characters up to the `\n`,
/// without a `\r` just before the `\n`.
pub open spec fn line_at(s: Seq<char>, start: nat, end: nat) -> Seq<char> {
    let raw = s.subrange(start as int, end as int);
    if end < s.len() && raw.len() > 0 && raw.last() == '\r' {
        raw.drop_last()
    } else {
        raw
    }
}

/// The lines of `s` from `start` on, as `str::lines` splits them: at each
/// `\n` (dropping a `\r` just before it); a final line ending adds no
/// empty line.
pub open spec fn lines_from(s: Seq<char>, start: nat) -> Seq<Seq<char>>
    decreases s.len() - start,
{
    if start >= s.len() {
        seq![]
    } else {
        let e = next_newline(s, start);
        proof {
            lemma_next_newline(s, start);
        }
        if e < s.len() {
            seq![line_at(s, start, e)] + lines_from(s, e + 1)
        } else {
            seq![line_at(s, start, e)]
        }
    }
}

/// The lines of a text, as `str::lines` splits them.
pub open spec fn text_lines(s: Seq<char>) -> Seq<Seq<char>> {
    lines_from(s, 0)
}

/// The lines of a text, as `str::lines` splits them.
pub fn split_lines(t: &str) -> (r: Vec<Vec<char>>)
    ensures
        r@.map_values(|l: Vec<char>| l@) == text_lines(t@),
{
    let s = to_chars(t);
    let n = s.len();
    let mut out: Vec<Vec<char>> = Vec::new();
    let mut start: usize = 0;
    while start < n
        invariant
            n == s@.len(),
            s@ == t@,
            start <= n,
            text_lines(s@) == out@.map_values(|l: Vec<char>| l@) + lines_from(s@, start as nat),
        decreases n - start,
    {
        proof {
            lemma_next_newline(s@, start as nat);
        }
        let mut e: usize = start;
        while e < n && s[e] != '\n'
            invariant
                n == s@.len(),
                start <= e <= n,
                next_newline(s@, start as nat) == next_newline(s@, e as nat),
            decreases n - e,
        {
            e = e + 1;
        }
        let mut end = e;
        if e < n && end > start && s[end - 1] == '\r' {
            end = end - 1;
        }
        let mut line: Vec<char> = Vec::new();
        let mut k: usize = start;
        while k < end
            invariant
                start <= k <= end <= n,
                n == s@.len(),
                line@ == s@.subrange(start as int, k as int),
            decreases end - k,
        {
            line.push(s[k]);
            k = k + 1;
            assert(line@ =~= s@.subrange(start as int, k as int));
        }
        let ghost before = out@.map_values(|l: Vec<char>| l@);
        proof {
            assert(line@ =~= line_at(s@, start as nat, e as nat));
        }
        out.push(line);
        proof {
            assert(out@.map_values(|l: Vec<char>| l@) =~= before.push(line_at(s@, start as nat, e as nat)));
        }
        if e < n {
            start = e + 1;
        } else {
            start = n;
        }
    }
    out
}

} // verus!

verus! {

/// Appends the characters of `v` to `out`.
pub fn push_chars(out: &mut String, v: &Vec<char>)
    ensures
        final(out)@ == old(out)@ + v@,
{
    let mut i: usize = 0;
    while i < v.len()
        invariant
            i <= v@.len(),
            out@ == old(out)@ + v@.subrange(0, i as int),
        decreases v@.len() - i,
    {
        push_char(out, v[i]);
        i = i + 1;
        assert(out@ =~= old(out)@ + v@.subrange(0, i as int));
    }
    assert(v@.subrange(0, i as int) =~= v@);
}

/// The views of a list of lines.
pub open spec fn line_views(v: Seq<Vec<char>>) -> Seq<Seq<char>> {
    v.map_values(|l: Vec<char>| l@)
}

/// One line of a Rust doc comment inside a JSDoc block: ` *`, a space
/// unless the line is empty or already starts with one, the line, and a
/// line ending.
pub open spec fn comment_line(l: Seq<char>) -> Seq<char> {
    " *"@ + (if l.len() > 0 && l[0] != ' ' { seq![' '] } else { seq![] }) + l + seq!['\n']
}

/// The lines of a Rust doc comment inside a JSDoc block.
pub open spec fn comment_body(lines: Seq<Seq<char>>) -> Seq<char>
    decreases lines.len(),
{
    if lines.len() == 0 {
        seq![]
    } else {
        comment_body(lines.drop_last()) + comment_line(lines.last())
    }
}

/// One line of extra JSDoc: ` * `, the line, and a line ending.
pub open spec fn js_doc_line(l: Seq<char>) -> Seq<char> {
    " * "@ + l + seq!['\n']
}

/// The lines of extra JSDoc inside a JSDoc block.
pub open spec fn js_doc_body(lines: Seq<Seq<char>>) -> Seq<char>
    decreases lines.len(),
{
    if lines.len() == 0 {
        seq![]
    } else {
        js_doc_body(lines.drop_last()) + js_doc_line(lines.last())
    }
}

/// The JSDoc block for the doc comments `comments` and the extra JSDoc
/// `js_docs`: empty when both hold no line.
pub open spec fn spec_format_doc_comments(comments: Seq<char>, js_docs: Option<Seq<char>>) -> Seq<char> {
    let body = comment_body(text_lines(comments));
    let doc = match js_docs {
        Some(d) => js_doc_body(text_lines(d)),
        None => seq![],
    };
    if body.len() == 0 && doc.len() == 0 {
        seq![]
    } else {
        "/**\n"@ + body + doc + " */\n"@
    }
}

/// The view of an optional string.
pub open spec fn opt_text(o: Option<String>) -> Option<Seq<char>> {
    match o {
        Some(s) => Some(s@),
        None => None,
    }
}

/// Formats the doc comments of an item, and the extra JSDoc generated for
/// it, as one JSDoc block.
pub fn format_doc_comments(comments: &str, js_doc_comments: Option<String>) -> (r: String)
    ensures
        r@ == spec_format_doc_comments(comments@, opt_text(js_doc_comments)),
{
    let lines = split_lines(comments);
    let ghost ls = line_views(lines@);
    let mut body = String::new();
    let mut i: usize = 0;
    while i < lines.len()
        invariant
            i <= lines@.len(),
            ls == line_views(lines@),
            body@ == comment_body(ls.take(i as int)),
        decreases lines@.len() - i,
    {
        let ghost before = body@;
        push_text(&mut body, " *");
        let l = &lines[i];
        if l.len() > 0 && l[0] != ' ' {
            push_char(&mut body, ' ');
        }
        push_chars(&mut body, l);
        push_char(&mut body, '\n');
        proof {
            assert(ls.take(i as int + 1).drop_last() =~= ls.take(i as int));
            assert(ls.take(i as int + 1).last() == l@);
            assert(body@ =~= before + comment_line(l@));
        }
        i = i + 1;
    }
    assert(ls.take(i as int) =~= ls);
    let mut doc = String::new();
    let mut doc_lines: usize = 0;
    match js_doc_comments {
        Some(d) => {
            let dlines = split_lines(d.as_str());
            let ghost ds = line_views(dlines@);
            let mut k: usize = 0;
            while k < dlines.len()
                invariant
                    k <= dlines@.len(),
                    ds == line_views(dlines@),
                    doc@ == js_doc_body(ds.take(k as int)),
                decreases dlines@.len() - k,
            {
                let ghost before = doc@;
                push_text(&mut doc, " * ");
                push_chars(&mut doc, &dlines[k]);
                push_char(&mut doc, '\n');
                proof {
                    assert(ds.take(k as int + 1).drop_last() =~= ds.take(k as int));
                    assert(ds.take(k as int + 1).last() == dlines@[k as int]@);
                    assert(doc@ =~= before + js_doc_line(dlines@[k as int]@));
                }
                k = k + 1;
            }
            assert(ds.take(k as int) =~= ds);
            doc_lines = dlines.len();
            proof {
                if ds.len() > 0 {
                    assert(js_doc_body(ds).len() > 0);
                }
            }
        },
        None => {},
    }
    proof {
        if ls.len() > 0 {
            assert(comment_body(ls).len() > 0);
        }
    }
    if lines.len() == 0 && doc_lines == 0 {
        String::new()
    } else {
        let mut out = String::new();
        push_text(&mut out, "/**\n");
        push_text(&mut out, body.as_str());
        push_text(&mut out, doc.as_str());
        push_text(&mut out, " */\n");
        out
    }
}

/// A typed view of the Wasm memory in the generated JavaScript, such as
/// `getUint8ArrayMemory0`: a base name and the index of the memory.
pub struct MemView {
    pub name: String,
    pub num: usize,
}

impl MemView {
    /// The name of the view's accessor function: the base name followed by
    /// the memory's index.
    pub open spec fn display(&self) -> Seq<char> {
        self.name@ + decimal(self.num as nat)
    }

    /// Formats the MemView specifically for accessing the memory buffer
    /// directly: Emscripten's global arrays (such as `HEAPU8`) go by their
    /// bare name, the others are a call of the accessor function.
    pub fn access(&self, is_emscripten: bool) -> (r: String)
        ensures
            is_emscripten ==> r@ == self.name@,
            !is_emscripten ==> r@ == self.display() + "()"@,
    {
        let mut out = String::new();
        push_text(&mut out, self.name.as_str());
        if !is_emscripten {
            push_decimal(&mut out, self.num as u64);
            push_text(&mut out, "()");
        }
        out
    }
}

} // verus!

verus! {

/// The key of a class field in the TypeScript declarations: its name and
/// whether it is static.
pub struct FieldLocation {
    pub name: String,
    pub is_static: bool,
}

/// A getter or setter for a field.
pub struct FieldAccessor {
    pub ty: String,
    pub docs: String,
    pub is_optional: bool,
}

/// What the TypeScript declaration of a class field is made from.
pub struct FieldInfo {
    pub name: String,
    pub is_static: bool,
    /// The position of the field among the class's fields, in the order
    /// in which their first accessor was added.
    pub order: usize,
    pub getter: Option<FieldAccessor>,
    pub setter: Option<FieldAccessor>,
}

/// An exported class, as the generator builds it up member by member.
pub struct ExportedClass {
    pub comments: String,
    pub contents: String,
    pub identifier: String,
    /// The TypeScript for the class's methods.
    pub typescript: String,
    /// Whether TypeScript for this class should be emitted (i.e.,
    /// `skip_typescript` wasn't specified).
    pub generate_typescript: bool,
    /// Whether to skip exporting this class from the module exports
    pub private: bool,
    pub has_constructor: bool,
    pub wrap_needed: bool,
    pub unwrap_needed: bool,
    /// Whether to generate helper methods for inspecting the class
    pub is_inspectable: bool,
    /// All readable properties of the class
    pub readable_properties: Vec<String>,
    /// The class's fields, one per name and staticness.
    pub typescript_fields: Vec<FieldInfo>,
    /// The namespace to export the class through, if any
    pub js_namespace: Option<Vec<String>>,
    /// The JS-facing name of this class (used for JS output)
    pub js_name: Option<String>,
    /// The namespace-qualified name (used for wasm symbol references)
    pub qualified_name: Option<String>,
}

/// Whether a field has the given name and staticness.
pub open spec fn field_is(f: FieldInfo, name: Seq<char>, is_static: bool) -> bool {
    f.name@ == name && f.is_static == is_static
}

/// `f` with its setter (or getter) replaced by `a`.
pub open spec fn with_accessor(f: FieldInfo, a: FieldAccessor, is_setter: bool) -> FieldInfo {
    if is_setter {
        FieldInfo { setter: Some(a), ..f }
    } else {
        FieldInfo { getter: Some(a), ..f }
    }
}

/// The lines of TypeScript docs, each indented by two spaces.
pub open spec fn indented_lines(lines: Seq<Seq<char>>) -> Seq<char>
    decreases lines.len(),
{
    if lines.len() == 0 {
        seq![]
    } else {
        indented_lines(lines.drop_last()) + "  "@ + lines.last() + seq!['\n']
    }
}

impl View for ExportedClass {
    type V = ExportedClass;

    /// A class is its own plain value.
    open spec fn view(&self) -> ExportedClass {
        *self
    }
}

impl ExportedClass {
    /// The fields are listed in the order of their `order`, each has a
    /// getter or a setter, and no two of them share a name and staticness.
    pub open spec fn wf(&self) -> bool {
        &&& forall|i: int| 0 <= i < self.typescript_fields@.len() ==> #[trigger] self.typescript_fields@[i].order == i
        &&& forall|i: int|
            0 <= i < self.typescript_fields@.len() ==> (#[trigger] self.typescript_fields@[i]).getter is Some
                || self.typescript_fields@[i].setter is Some
        &&& forall|i: int, j: int|
            0 <= i < j < self.typescript_fields@.len() ==> !field_is(
                #[trigger] self.typescript_fields@[i],
                self.typescript_fields@[j].name@,
                #[trigger] self.typescript_fields@[j].is_static,
            )
    }

    /// A class with nothing in it yet.
    pub fn new() -> (c: ExportedClass)
        ensures
            c.wf(),
            c.contents@.len() == 0,
            c.typescript@.len() == 0,
            c.typescript_fields@.len() == 0,
            c.readable_properties@.len() == 0,
            !c.generate_typescript && !c.private && !c.has_constructor,
            !c.wrap_needed && !c.unwrap_needed && !c.is_inspectable,
            c.js_namespace is None && c.js_name is None && c.qualified_name is None,
    {
        ExportedClass {
            comments: String::new(),
            contents: String::new(),
            identifier: String::new(),
            typescript: String::new(),
            generate_typescript: false,
            private: false,
            has_constructor: false,
            wrap_needed: false,
            unwrap_needed: false,
            is_inspectable: false,
            readable_properties: Vec::new(),
            typescript_fields: Vec::new(),
            js_namespace: None,
            js_name: None,
            qualified_name: None,
        }
    }

    /// Adds a member: its JavaScript to the class body, and, where `ts` is
    /// given, its TypeScript declaration with the docs indented above it.
    pub fn push(
        &mut self,
        function_name: &str,
        function_prefix: &str,
        js_docs: &str,
        js: &str,
        ts_docs: &str,
        ts: Option<&str>,
    )
        ensures
            final(self).contents@ == old(self).contents@ + js_docs@ + function_prefix@ + function_name@
                + js@ + seq!['\n'],
            ts is None ==> final(self).typescript@ == old(self).typescript@,
            ts matches Some(t) ==> final(self).typescript@ == old(self).typescript@ + indented_lines(
                text_lines(ts_docs@),
            ) + "  "@ + function_prefix@ + function_name@ + t@ + ";\n"@,
            *final(self) == (ExportedClass {
                contents: final(self).contents,
                typescript: final(self).typescript,
                ..*old(self)
            }),
    {
        let ghost c0 = *self;
        push_text(&mut self.contents, js_docs);
        push_text(&mut self.contents, function_prefix);
        push_text(&mut self.contents, function_name);
        push_text(&mut self.contents, js);
        push_char(&mut self.contents, '\n');
        match ts {
            Some(ts) => {
                let lines = split_lines(ts_docs);
                let ghost ls = line_views(lines@);
                let mut i: usize = 0;
                let ghost start = self.typescript@;
                let ghost contents1 = self.contents@;
                while i < lines.len()
                    invariant
                        i <= lines@.len(),
                        self.contents@ == contents1,
                        *self == (ExportedClass { contents: self.contents, typescript: self.typescript, ..c0 }),
                        ls == line_views(lines@),
                        self.typescript@ == start + indented_lines(ls.take(i as int)),
                    decreases lines@.len() - i,
                {
                    let ghost before = self.typescript@;
                    push_text(&mut self.typescript, "  ");
                    push_chars(&mut self.typescript, &lines[i]);
                    push_char(&mut self.typescript, '\n');
                    proof {
                        assert(ls.take(i as int + 1).drop_last() =~= ls.take(i as int));
                        assert(ls.take(i as int + 1).last() == lines@[i as int]@);
                        assert(self.typescript@ =~= start + indented_lines(ls.take(i as int + 1)));
                    }
                    i = i + 1;
                }
                assert(ls.take(i as int) =~= ls);
                push_text(&mut self.typescript, "  ");
                push_text(&mut self.typescript, function_prefix);
                push_text(&mut self.typescript, function_name);
                push_text(&mut self.typescript, ts);
                push_text(&mut self.typescript, ";\n");
            },
            None => {},
        }
    }

    /// Records the getter (or, with `is_setter`, the setter) of a field for
    /// the TypeScript declarations. A field seen for the first time comes
    /// after all fields seen before.
    pub fn push_accessor_ts(&mut self, location: FieldLocation, accessor: FieldAccessor, is_setter: bool)
        requires
            old(self).wf(),
        ensures
            final(self).wf(),
            (exists|i: int|
                0 <= i < old(self).typescript_fields@.len() && field_is(
                    #[trigger] old(self).typescript_fields@[i],
                    location.name@,
                    location.is_static,
                )) ==> {
                let i = choose|i: int|
                    0 <= i < old(self).typescript_fields@.len() && field_is(
                        #[trigger] old(self).typescript_fields@[i],
                        location.name@,
                        location.is_static,
                    );
                final(self).typescript_fields@ == old(self).typescript_fields@.update(
                    i,
                    with_accessor(old(self).typescript_fields@[i], accessor, is_setter),
                )
            },
            (forall|i: int|
                0 <= i < old(self).typescript_fields@.len() ==> !field_is(
                    #[trigger] old(self).typescript_fields@[i],
                    location.name@,
                    location.is_static,
                )) ==> final(self).typescript_fields@ == old(self).typescript_fields@.push(
                with_accessor(
                    FieldInfo {
                        name: location.name,
                        is_static: location.is_static,
                        order: old(self).typescript_fields@.len() as usize,
                        getter: None,
                        setter: None,
                    },
                    accessor,
                    is_setter,
                ),
            ),
            *final(self) == (ExportedClass { typescript_fields: final(self).typescript_fields, ..*old(self) }),
    {
        let size = self.typescript_fields.len();
        let mut i: usize = 0;
        while i < size
            invariant
                size == self.typescript_fields@.len(),
                i <= size,
                forall|k: int| 0 <= k < i ==> !field_is(
                    #[trigger] self.typescript_fields@[k],
                    location.name@,
                    location.is_static,
                ),
            ensures
                i <= size,
                i < size ==> field_is(self.typescript_fields@[i as int], location.name@, location.is_static),
                forall|k: int| 0 <= k < i ==> !field_is(
                    #[trigger] self.typescript_fields@[k],
                    location.name@,
                    location.is_static,
                ),
            decreases size - i,
        {
            if self.typescript_fields[i].is_static == location.is_static && text_is(
                self.typescript_fields[i].name.as_str(),
                location.name.as_str(),
            ) {
                break;
            }
            i = i + 1;
        }
        if i < size {
            let ghost old_fields = self.typescript_fields@;
            assert(field_is(old_fields[i as int], location.name@, location.is_static));
            let mut slot = FieldInfo {
                name: String::new(),
                is_static: false,
                order: 0,
                getter: None,
                setter: None,
            };
            self.typescript_fields.set_and_swap(i, &mut slot);
            if is_setter {
                slot.setter = Some(accessor);
            } else {
                slot.getter = Some(accessor);
            }
            self.typescript_fields.set(i, slot);
            proof {
                let i0 = choose|j: int|
                    0 <= j < old_fields.len() && field_is(
                        #[trigger] old_fields[j],
                        location.name@,
                        location.is_static,
                    );
                if i0 != i as int {
                    if i0 < i {
                        assert(!field_is(old_fields[i0], old_fields[i as int].name@, old_fields[i as int].is_static));
                    } else {
                        assert(!field_is(old_fields[i as int], old_fields[i0].name@, old_fields[i0].is_static));
                    }
                }
                assert forall|a: int, b: int|
                    0 <= a < b < self.typescript_fields@.len() implies !field_is(
                    #[trigger] self.typescript_fields@[a],
                    self.typescript_fields@[b].name@,
                    #[trigger] self.typescript_fields@[b].is_static,
                ) by {
                    assert(!field_is(old_fields[a], old_fields[b].name@, old_fields[b].is_static));
                }
            }
        } else {
            let mut f = FieldInfo {
                name: location.name,
                is_static: location.is_static,
                order: size,
                getter: None,
                setter: None,
            };
            if is_setter {
                f.setter = Some(accessor);
            } else {
                f.getter = Some(accessor);
            }
            self.typescript_fields.push(f);
            proof {
                let n = self.typescript_fields@.len();
                assert forall|a: int, b: int|
                    0 <= a < b < n implies !field_is(
                    #[trigger] self.typescript_fields@[a],
                    self.typescript_fields@[b].name@,
                    #[trigger] self.typescript_fields@[b].is_static,
                ) by {
                    if b == n - 1 {
                        assert(!field_is(self.typescript_fields@[a], location.name@, location.is_static));
                    }
                }
            }
        }
    }
}

} // verus!

verus! {

/// The kind of an exported class method, as far as the accessor check
/// tells them apart.
#[derive(Debug, Clone, Copy, PartialEq, Eq, Structural)]
pub enum MethodKind {
    Getter,
    Setter,
    /// A constructor or an ordinary method.
    Other,
}

/// An export, as far as the accessor check reads it.
pub enum ExportKind {
    /// A method of an exported class.
    Method { class: String, name: String, kind: MethodKind, is_static: bool },
    /// A free function, constructor or anything else that is not a method.
    Other,
}

/// Whether two exports define the same getter (or the same setter): both
/// are getters, or both setters, of the same class, for fields of the same
/// name and staticness.
pub open spec fn accessor_clash(a: ExportKind, b: ExportKind) -> bool {
    match a {
        ExportKind::Method { class: c1, name: n1, kind: k1, is_static: s1 } => match b {
            ExportKind::Method { class: c2, name: n2, kind: k2, is_static: s2 } => {
                &&& (k1 == MethodKind::Getter && k2 == MethodKind::Getter) || (k1 == MethodKind::Setter
                    && k2 == MethodKind::Setter)
                &&& c1@ == c2@
                &&& n1@ == n2@
                &&& s1 == s2
            },
            ExportKind::Other => false,
        },
        ExportKind::Other => false,
    }
}

/// Whether export `i` clashes with an export after it.
pub open spec fn clashes_later(s: Seq<ExportKind>, i: int) -> bool {
    exists|j: int| i < j < s.len() && accessor_clash(s[i], #[trigger] s[j])
}

/// The error for a field with two getters or two setters.
pub open spec fn duplicate_accessor_message(k: ExportKind) -> Seq<char> {
    match k {
        ExportKind::Method { class, name, .. } => "There can be only one getter/setter definition for `"@
            + name@ + "` in `"@ + class@ + "`"@,
        ExportKind::Other => seq![],
    }
}

fn clash(a: &ExportKind, b: &ExportKind) -> (r: bool)
    ensures
        r == accessor_clash(*a, *b),
{
    match a {
        ExportKind::Method { class: c1, name: n1, kind: k1, is_static: s1 } => match b {
            ExportKind::Method { class: c2, name: n2, kind: k2, is_static: s2 } => {
                let same_kind = (*k1 == MethodKind::Getter && *k2 == MethodKind::Getter) || (*k1
                    == MethodKind::Setter && *k2 == MethodKind::Setter);
                same_kind && *s1 == *s2 && text_is(c1.as_str(), c2.as_str()) && text_is(
                    n1.as_str(),
                    n2.as_str(),
                )
            },
            ExportKind::Other => false,
        },
        ExportKind::Other => false,
    }
}

/// Checks that no field of a class has two getters or two setters. On a
/// clash, the error names the field and class of the first export (in
/// order) that has a clashing export after it.
pub fn check_duplicated_getter_and_setter_names(exports: &[ExportKind]) -> (r: Result<(), String>)
    ensures
        r is Ok <==> forall|i: int| 0 <= i < exports@.len() ==> !clashes_later(exports@, i),
        r matches Err(m) ==> exists|i: int|
            0 <= i < exports@.len() && clashes_later(exports@, i) && (forall|k: int|
                0 <= k < i ==> !clashes_later(exports@, k)) && m@ == duplicate_accessor_message(
                #[trigger] exports@[i],
            ),
{
    let n = exports.len();
    let mut i: usize = 0;
    while i < n
        invariant
            n == exports@.len(),
            i <= n,
            forall|k: int| 0 <= k < i ==> !clashes_later(exports@, k),
        decreases n - i,
    {
        let mut j: usize = i + 1;
        while j < n
            invariant
                n == exports@.len(),
                i < n,
                i + 1 <= j <= n,
                forall|k: int| 0 <= k < i ==> !clashes_later(exports@, k),
                forall|l: int| i < l < j ==> !accessor_clash(exports@[i as int], #[trigger] exports@[l]),
            decreases n - j,
        {
            if clash(&exports[i], &exports[j]) {
                let mut m = String::new();
                match &exports[i] {
                    ExportKind::Method { class, name, .. } => {
                        push_text(&mut m, "There can be only one getter/setter definition for `");
                        push_text(&mut m, name.as_str());
                        push_text(&mut m, "` in `");
                        push_text(&mut m, class.as_str());
                        push_text(&mut m, "`");
                    },
                    ExportKind::Other => {},
                }
                proof {
                    assert(accessor_clash(exports@[i as int], exports@[j as int]));
                    assert(clashes_later(exports@, i as int));
                    assert(m@ == duplicate_accessor_message(exports@[i as int]));
                }
                return Err(m);
            }
            j = j + 1;
        }
        assert(!clashes_later(exports@, i as int));
        i = i + 1;
    }
    Ok(())
}

} // verus!

verus! {

/// One imported name in an ES `import` statement: the name, quoted when it
/// is not a valid identifier, and its local name after `as` if it has one.
pub open spec fn es_import_item(item: Seq<char>, rename: Option<Seq<char>>) -> Seq<char> {
    (if spec_is_valid_ident(item) {
        item
    } else {
        seq!['\''] + item + seq!['\'']
    }) + match rename {
        Some(other) => " as "@ + other,
        None => seq![],
    }
}

/// The imported names of an ES `import` statement, separated by `, `.
pub open spec fn es_import_items(items: Seq<(Seq<char>, Option<Seq<char>>)>) -> Seq<char>
    decreases items.len(),
{
    if items.len() == 0 {
        seq![]
    } else if items.len() == 1 {
        es_import_item(items[0].0, items[0].1)
    } else {
        es_import_items(items.drop_last()) + ", "@ + es_import_item(items.last().0, items.last().1)
    }
}

/// The views of the names (and local names) to import.
pub open spec fn import_views(items: Seq<(String, Option<String>)>) -> Seq<(Seq<char>, Option<Seq<char>>)> {
    items.map_values(|p: (String, Option<String>)| (p.0@, opt_text(p.1)))
}

/// The ES `import` statement that imports `items` from `module`.
pub open spec fn es_import(module: Seq<char>, items: Seq<(Seq<char>, Option<Seq<char>>)>) -> Seq<char> {
    "import { "@ + es_import_items(items) + " } from '"@ + module + "';\n"@
}

/// Writes an ES `import` statement for `items` from `module`.
pub fn write_es_import(dest: &mut String, module: &str, items: &[(String, Option<String>)])
    ensures
        final(dest)@ == old(dest)@ + es_import(module@, import_views(items@)),
{
    push_text(dest, "import { ");
    let ghost start = dest@;
    let ghost iv = import_views(items@);
    let mut i: usize = 0;
    while i < items.len()
        invariant
            i <= items@.len(),
            iv == import_views(items@),
            dest@ == start + es_import_items(iv.take(i as int)),
        decreases items@.len() - i,
    {
        let ghost before = dest@;
        if i > 0 {
            push_text(dest, ", ");
        }
        let item = &items[i].0;
        if is_valid_ident(item.as_str()) {
            push_text(dest, item.as_str());
        } else {
            push_char(dest, '\'');
            push_text(dest, item.as_str());
            push_char(dest, '\'');
        }
        match &items[i].1 {
            Some(other) => {
                push_text(dest, " as ");
                push_text(dest, other.as_str());
            },
            None => {},
        }
        proof {
            let t = iv.take(i as int + 1);
            assert(t.drop_last() =~= iv.take(i as int));
            assert(t.last() == iv[i as int]);
            if i == 0 {
                assert(t =~= seq![iv[0]]);
            }
            assert(dest@ =~= start + es_import_items(t));
        }
        i = i + 1;
    }
    assert(iv.take(i as int) =~= iv);
    push_text(dest, " } from '");
    push_text(dest, module);
    push_text(dest, "';\n");
}

} // verus!

verus! {

/// The definition of a module export.
pub struct ExportDefinition {
    /// The identifier for the declaration, if distinct from the export
    /// name. This allows invalid identifier export names (like "default").
    pub identifier: String,
    pub comments: Option<String>,
    pub definition: String,
    pub ts_comments: Option<String>,
    pub ts_definition: String,
    /// Whether this is a private export, so not actually exposed on the
    /// module exports interface.
    pub private: bool,
}

/// A namespace export: the namespace's identifier, if it has one, and its
/// entries (a name and an export each), which [`define_export`] keeps in
/// the order of their names.
pub struct ExportedNamespace {
    pub id: Option<String>,
    pub ns: Vec<(String, ExportEntry)>,
}

/// A module export: a definition, or a namespace of further exports.
pub enum ExportEntry {
    Definition(ExportDefinition),
    Namespace(ExportedNamespace),
}

/// An export seen as a value: a definition, or a namespace with its
/// identifier and its entries, names taken by their characters.
pub enum EntryView {
    Definition(ExportDefinition),
    Namespace(Option<Seq<char>>, Seq<(Seq<char>, EntryView)>),
}

impl ExportEntry {
    /// The export as a value.
    pub open spec fn view_entry(&self) -> EntryView
        decreases self,
    {
        match self {
            ExportEntry::Definition(d) => EntryView::Definition(*d),
            ExportEntry::Namespace(n) => EntryView::Namespace(opt_text(n.id), entries_view(n.ns@)),
        }
    }
}

/// A list of named exports seen as values.
pub open spec fn entries_view(s: Seq<(String, ExportEntry)>) -> Seq<(Seq<char>, EntryView)>
    decreases s,
{
    if s.len() == 0 {
        seq![]
    } else {
        entries_view(s.drop_last()).push((s.last().0@, s.last().1.view_entry()))
    }
}

} // verus!

verus! {

/// The position of the first entry named `k`, from position `i` on.
pub open spec fn entry_pos(s: Seq<(Seq<char>, EntryView)>, k: Seq<char>, i: nat) -> Option<nat>
    decreases s.len() - i,
{
    if i >= s.len() {
        None
    } else if s[i as int].0 == k {
        Some(i)
    } else {
        entry_pos(s, k, i + 1)
    }
}

/// Where an entry named `k` goes among the entries from position `i` on:
/// before the first one whose name comes after `k`, else at the end. In a
/// list kept in the order of the names this keeps the order.
pub open spec fn sorted_pos(s: Seq<(Seq<char>, EntryView)>, k: Seq<char>, i: nat) -> nat
    decreases s.len() - i,
{
    if i >= s.len() {
        s.len()
    } else if chars_lt(k, s[i as int].0) {
        i
    } else {
        sorted_pos(s, k, i + 1)
    }
}

/// The error when an export would replace an existing entry.
pub open spec fn over_namespace_message(name: Seq<char>) -> Seq<char> {
    "Cannot define export over existing namespace "@ + name
}

/// The error when a namespace would replace an existing definition.
pub open spec fn over_definition_message(name: Seq<char>) -> Seq<char> {
    "Cannot to define namespace export over existing definition "@ + name
}

/// The exports after defining `def` as `name` inside the namespaces
/// `path` (outermost first), or the error that stops it.
///
/// A new name is inserted before the first entry whose name comes after
/// it, so that entries kept in the order of their names stay so.
/// At the end of the path, a new name is added; an existing name is an
/// error, except that an empty definition gives a namespace without
/// identifier its identifier. Along the path, a missing namespace is
/// created; an empty definition in its place becomes a namespace with the
/// definition's identifier; any other definition is an error.
pub open spec fn spec_define_export(
    s: Seq<(Seq<char>, EntryView)>,
    name: Seq<char>,
    path: Seq<Seq<char>>,
    def: ExportDefinition,
) -> Result<Seq<(Seq<char>, EntryView)>, Seq<char>>
    decreases path.len(),
{
    if path.len() == 0 {
        match entry_pos(s, name, 0) {
            None => Ok(s.insert(sorted_pos(s, name, 0) as int, (name, EntryView::Definition(def)))),
            Some(i) => match s[i as int].1 {
                EntryView::Namespace(id, entries) => if id is None && def.definition@.len() == 0 {
                    Ok(s.update(i as int, (s[i as int].0, EntryView::Namespace(Some(def.identifier@), entries))))
                } else {
                    Err(over_namespace_message(name))
                },
                EntryView::Definition(_) => Err(over_namespace_message(name)),
            },
        }
    } else {
        let k = path[0];
        let rest = path.drop_first();
        match entry_pos(s, k, 0) {
            None => match spec_define_export(seq![], name, rest, def) {
                Ok(inner) => Ok(s.insert(sorted_pos(s, k, 0) as int, (k, EntryView::Namespace(None, inner)))),
                Err(m) => Err(m),
            },
            Some(i) => match s[i as int].1 {
                EntryView::Namespace(id, entries) => match spec_define_export(entries, name, rest, def) {
                    Ok(inner) => Ok(s.update(i as int, (s[i as int].0, EntryView::Namespace(id, inner)))),
                    Err(m) => Err(m),
                },
                EntryView::Definition(d) => if d.definition@.len() == 0 {
                    match spec_define_export(seq![], name, rest, def) {
                        Ok(inner) => Ok(
                            s.update(i as int, (s[i as int].0, EntryView::Namespace(Some(d.identifier@), inner))),
                        ),
                        Err(m) => Err(m),
                    }
                } else {
                    Err(over_definition_message(name))
                },
            },
        }
    }
}

/// Defining an export in an empty list of exports always succeeds.
pub proof fn lemma_define_in_empty(name: Seq<char>, path: Seq<Seq<char>>, def: ExportDefinition)
    ensures
        spec_define_export(seq![], name, path, def) is Ok,
    decreases path.len(),
{
    if path.len() > 0 {
        lemma_define_in_empty(name, path.drop_first(), def);
    }
}

/// Whether the names of the entries come in their order (so each once).
pub open spec fn keys_in_order(s: Seq<(Seq<char>, EntryView)>) -> bool {
    forall|i: int, j: int| 0 <= i < j < s.len() ==> chars_lt(#[trigger] s[i].0, #[trigger] s[j].0)
}

/// Whether the entries, and those of every namespace among them, come in
/// the order of their names, as the entries of a `BTreeMap` do.
pub open spec fn exports_in_order(s: Seq<(Seq<char>, EntryView)>) -> bool
    decreases s,
{
    &&& keys_in_order(s)
    &&& forall|i: int|
        0 <= i < s.len() ==> match (#[trigger] s[i]).1 {
            EntryView::Namespace(_, inner) => exports_in_order(inner),
            EntryView::Definition(_) => true,
        }
}

/// Whether the export `e` is a definition or a namespace whose entries
/// are in order.
pub open spec fn entry_in_order(e: EntryView) -> bool {
    match e {
        EntryView::Namespace(_, inner) => exports_in_order(inner),
        EntryView::Definition(_) => true,
    }
}

proof fn lemma_entry_pos_none(s: Seq<(Seq<char>, EntryView)>, k: Seq<char>, i: nat)
    requires
        entry_pos(s, k, i) is None,
    ensures
        forall|j: int| i <= j < s.len() ==> (#[trigger] s[j]).0 != k,
    decreases s.len() - i,
{
    if i < s.len() {
        lemma_entry_pos_none(s, k, i + 1);
    }
}

proof fn lemma_sorted_pos(s: Seq<(Seq<char>, EntryView)>, k: Seq<char>, i: nat)
    requires
        keys_in_order(s),
        i <= s.len(),
        forall|j: int| 0 <= j < i ==> chars_lt((#[trigger] s[j]).0, k),
        forall|j: int| 0 <= j < s.len() ==> (#[trigger] s[j]).0 != k,
    ensures
        i <= sorted_pos(s, k, i) <= s.len(),
        forall|j: int| 0 <= j < sorted_pos(s, k, i) ==> chars_lt((#[trigger] s[j]).0, k),
        forall|j: int| sorted_pos(s, k, i) <= j < s.len() ==> chars_lt(k, (#[trigger] s[j]).0),
    decreases s.len() - i,
{
    if i < s.len() {
        if chars_lt(k, s[i as int].0) {
            assert forall|j: int| i <= j < s.len() implies chars_lt(k, (#[trigger] s[j]).0) by {
                if j > i {
                    lemma_chars_trans(k, s[i as int].0, s[j].0);
                }
            }
        } else {
            lemma_chars_total(k, s[i as int].0);
            lemma_sorted_pos(s, k, i + 1);
        }
    }
}

/// Inserting a name that is not there yet at its place keeps the order,
/// given an entry that is itself in order.
proof fn lemma_insert_in_order(s: Seq<(Seq<char>, EntryView)>, k: Seq<char>, e: EntryView)
    requires
        exports_in_order(s),
        entry_pos(s, k, 0) is None,
        entry_in_order(e),
    ensures
        exports_in_order(s.insert(sorted_pos(s, k, 0) as int, (k, e))),
{
    lemma_entry_pos_none(s, k, 0);
    lemma_sorted_pos(s, k, 0);
    let p = sorted_pos(s, k, 0) as int;
    let t = s.insert(p, (k, e));
    assert forall|a: int, b: int| 0 <= a < b < t.len() implies chars_lt(#[trigger] t[a].0, #[trigger] t[b].0) by {
        if b < p {
            assert(t[a] == s[a] && t[b] == s[b]);
        } else if a > p {
            assert(t[a] == s[a - 1] && t[b] == s[b - 1]);
        } else if b == p {
            assert(t[a] == s[a]);
        } else if a == p {
            assert(t[b] == s[b - 1]);
        } else {
            assert(t[a] == s[a] && t[b] == s[b - 1]);
        }
    }
    assert forall|i: int| 0 <= i < t.len() implies entry_in_order((#[trigger] t[i]).1) by {
        if i < p {
            assert(t[i] == s[i]);
            assert(entry_in_order(s[i].1));
        } else if i > p {
            assert(t[i] == s[i - 1]);
            assert(entry_in_order(s[i - 1].1));
        }
    }
}

/// Replacing the export under an existing name by one that is in order
/// keeps the order.
proof fn lemma_update_in_order(s: Seq<(Seq<char>, EntryView)>, i: int, e: EntryView)
    requires
        exports_in_order(s),
        0 <= i < s.len(),
        entry_in_order(e),
    ensures
        exports_in_order(s.update(i, (s[i].0, e))),
{
    let t = s.update(i, (s[i].0, e));
    assert forall|a: int, b: int| 0 <= a < b < t.len() implies chars_lt(#[trigger] t[a].0, #[trigger] t[b].0) by {
        assert(t[a].0 == s[a].0 && t[b].0 == s[b].0);
    }
    assert forall|j: int| 0 <= j < t.len() implies entry_in_order((#[trigger] t[j]).1) by {
        if j != i {
            assert(t[j] == s[j]);
            assert(entry_in_order(s[j].1));
        }
    }
}

/// Defining an export keeps the exports, and the entries of every
/// namespace among them, in the order of their names.
pub proof fn lemma_define_keeps_order(
    s: Seq<(Seq<char>, EntryView)>,
    name: Seq<char>,
    path: Seq<Seq<char>>,
    def: ExportDefinition,
)
    requires
        exports_in_order(s),
        spec_define_export(s, name, path, def) is Ok,
    ensures
        exports_in_order(spec_define_export(s, name, path, def)->Ok_0),
    decreases path.len(),
{
    assert(exports_in_order(seq![]));
    if path.len() == 0 {
        match entry_pos(s, name, 0) {
            None => {
                lemma_insert_in_order(s, name, EntryView::Definition(def));
            },
            Some(i) => {
                lemma_entry_pos_some(s, name, 0);
                assert(entry_in_order(s[i as int].1));
                match s[i as int].1 {
                    EntryView::Namespace(id, entries) => {
                        lemma_update_in_order(s, i as int, EntryView::Namespace(Some(def.identifier@), entries));
                    },
                    EntryView::Definition(_) => {},
                }
            },
        }
    } else {
        let k = path[0];
        let rest = path.drop_first();
        match entry_pos(s, k, 0) {
            None => {
                lemma_define_keeps_order(seq![], name, rest, def);
                let inner = spec_define_export(seq![], name, rest, def)->Ok_0;
                lemma_insert_in_order(s, k, EntryView::Namespace(None, inner));
            },
            Some(i) => {
                lemma_entry_pos_some(s, k, 0);
                assert(entry_in_order(s[i as int].1));
                match s[i as int].1 {
                    EntryView::Namespace(id, entries) => {
                        lemma_define_keeps_order(entries, name, rest, def);
                        let inner = spec_define_export(entries, name, rest, def)->Ok_0;
                        lemma_update_in_order(s, i as int, EntryView::Namespace(id, inner));
                    },
                    EntryView::Definition(d) => {
                        lemma_define_keeps_order(seq![], name, rest, def);
                        let inner = spec_define_export(seq![], name, rest, def)->Ok_0;
                        lemma_update_in_order(s, i as int, EntryView::Namespace(Some(d.identifier@), inner));
                    },
                }
            },
        }
    }
}

proof fn lemma_entry_pos_some(s: Seq<(Seq<char>, EntryView)>, k: Seq<char>, i: nat)
    requires
        entry_pos(s, k, i) is Some,
    ensures
        entry_pos(s, k, i)->0 < s.len(),
        s[entry_pos(s, k, i)->0 as int].0 == k,
    decreases s.len() - i,
{
    if i < s.len() && s[i as int].0 != k {
        lemma_entry_pos_some(s, k, i + 1);
    }
}

proof fn lemma_entries_view(s: Seq<(String, ExportEntry)>)
    ensures
        entries_view(s).len() == s.len(),
        forall|i: int| 0 <= i < s.len() ==> #[trigger] entries_view(s)[i] == (s[i].0@, s[i].1.view_entry()),
    decreases s.len(),
{
    if s.len() > 0 {
        lemma_entries_view(s.drop_last());
        assert forall|i: int| 0 <= i < s.len() implies #[trigger] entries_view(s)[i] == (s[i].0@, s[i].1.view_entry()) by {
            if i < s.len() - 1 {
                assert(s.drop_last()[i] == s[i]);
            }
        }
    }
}

proof fn lemma_entries_view_update(s: Seq<(String, ExportEntry)>, i: int, x: (String, ExportEntry))
    requires
        0 <= i < s.len(),
    ensures
        entries_view(s.update(i, x)) == entries_view(s).update(i, (x.0@, x.1.view_entry())),
{
    lemma_entries_view(s);
    lemma_entries_view(s.update(i, x));
    assert(entries_view(s.update(i, x)) =~= entries_view(s).update(i, (x.0@, x.1.view_entry())));
}

proof fn lemma_entries_view_insert(s: Seq<(String, ExportEntry)>, i: int, x: (String, ExportEntry))
    requires
        0 <= i <= s.len(),
    ensures
        entries_view(s.insert(i, x)) == entries_view(s).insert(i, (x.0@, x.1.view_entry())),
{
    lemma_entries_view(s);
    lemma_entries_view(s.insert(i, x));
    assert(entries_view(s.insert(i, x)) =~= entries_view(s).insert(i, (x.0@, x.1.view_entry())));
}

/// The position where an entry named `k` is inserted.
fn find_insert_pos(v: &Vec<(String, ExportEntry)>, k: &str) -> (r: usize)
    ensures
        r <= v@.len(),
        r == sorted_pos(entries_view(v@), k@, 0),
{
    proof {
        lemma_entries_view(v@);
    }
    let mut i: usize = 0;
    while i < v.len()
        invariant
            i <= v@.len(),
            entries_view(v@).len() == v@.len(),
            forall|j: int| 0 <= j < v@.len() ==> #[trigger] entries_view(v@)[j] == (v@[j].0@, v@[j].1.view_entry()),
            sorted_pos(entries_view(v@), k@, 0) == sorted_pos(entries_view(v@), k@, i as nat),
        decreases v@.len() - i,
    {
        if text_lt(k, v[i].0.as_str()) {
            assert(entries_view(v@)[i as int].0 == v@[i as int].0@);
            return i;
        }
        i = i + 1;
    }
    i
}

fn find_entry(v: &Vec<(String, ExportEntry)>, k: &str) -> (r: Option<usize>)
    ensures
        r matches Some(j) ==> j < v@.len() && entry_pos(entries_view(v@), k@, 0) == Some(j as nat),
        r is None ==> entry_pos(entries_view(v@), k@, 0) is None,
{
    proof {
        lemma_entries_view(v@);
    }
    let mut i: usize = 0;
    while i < v.len()
        invariant
            i <= v@.len(),
            entries_view(v@).len() == v@.len(),
            forall|j: int| 0 <= j < v@.len() ==> #[trigger] entries_view(v@)[j] == (v@[j].0@, v@[j].1.view_entry()),
            entry_pos(entries_view(v@), k@, 0) == entry_pos(entries_view(v@), k@, i as nat),
        decreases v@.len() - i,
    {
        if text_is(v[i].0.as_str(), k) {
            assert(entries_view(v@)[i as int].0 == k@);
            return Some(i);
        }
        i = i + 1;
    }
    None
}

/// An empty namespace without identifier, to stand in a slot for a moment.
fn placeholder_entry() -> (r: ExportEntry)
    ensures
        r matches ExportEntry::Namespace(ns) && ns.id is None && ns.ns@.len() == 0,
{
    ExportEntry::Namespace(ExportedNamespace { id: None, ns: Vec::new() })
}

/// The views of the names along a namespace path.
pub open spec fn path_views(p: Seq<String>) -> Seq<Seq<char>> {
    p.map_values(|s: String| s@)
}

fn define_export_from(
    exports: &mut Vec<(String, ExportEntry)>,
    export_name: &str,
    ns_path: &[String],
    start: usize,
    export: ExportDefinition,
) -> (r: Result<(), String>)
    requires
        start <= ns_path@.len(),
    ensures
        match spec_define_export(entries_view(old(exports)@), export_name@, path_views(ns_path@).skip(start as int), export) {
            Ok(n) => r is Ok && entries_view(final(exports)@) == n,
            Err(m) => r matches Err(e) && e@ == m && entries_view(final(exports)@) == entries_view(old(exports)@),
        },
    decreases ns_path@.len() - start,
{
    let ghost s0 = entries_view(exports@);
    let ghost path = path_views(ns_path@).skip(start as int);
    if start == ns_path.len() {
        assert(path.len() == 0);
        match find_entry(exports, export_name) {
            None => {
                let ghost old_v = exports@;
                let pos = find_insert_pos(exports, export_name);
                let entry = (export_name.to_owned(), ExportEntry::Definition(export));
                let ghost x = entry;
                exports.insert(pos, entry);
                proof {
                    lemma_entries_view_insert(old_v, pos as int, x);
                }
                Ok(())
            },
            Some(i) => {
                let ghost old_v = exports@;
                proof {
                    lemma_entries_view(old_v);
                }
                let mut slot: (String, ExportEntry) = (String::new(), placeholder_entry());
                exports.set_and_swap(i, &mut slot);
                let (key, slot) = slot;
                let empty_def = export.definition.as_str().unicode_len() == 0;
                let can_name = match &slot {
                    ExportEntry::Namespace(ns) => ns.id.is_none(),
                    ExportEntry::Definition(_) => false,
                };
                if can_name && empty_def {
                    match slot {
                        ExportEntry::Namespace(ns) => {
                            exports.set(
                                i,
                                (key, ExportEntry::Namespace(ExportedNamespace { id: Some(export.identifier), ns: ns.ns })),
                            );
                            proof {
                                assert(exports@ =~= old_v.update(i as int, exports@[i as int]));
                                lemma_entries_view_update(old_v, i as int, exports@[i as int]);
                            }
                            Ok(())
                        },
                        ExportEntry::Definition(d) => {
                            exports.set(i, (key, ExportEntry::Definition(d)));
                            Err(String::new())
                        },
                    }
                } else {
                    exports.set(i, (key, slot));
                    proof {
                        assert(exports@ =~= old_v);
                    }
                    let mut m = String::new();
                    push_text(&mut m, "Cannot define export over existing namespace ");
                    push_text(&mut m, export_name);
                    Err(m)
                }
            },
        }
    } else {
        assert(path.len() > 0 && path[0] == ns_path@[start as int]@);
        assert(path.drop_first() =~= path_views(ns_path@).skip(start as int + 1));
        match find_entry(exports, ns_path[start].as_str()) {
            None => {
                let mut inner: Vec<(String, ExportEntry)> = Vec::new();
                proof {
                    lemma_define_in_empty(export_name@, path.drop_first(), export);
                    assert(entries_view(inner@) =~= seq![]);
                }
                let res = define_export_from(&mut inner, export_name, ns_path, start + 1, export);
                let ghost old_v = exports@;
                let pos = find_insert_pos(exports, ns_path[start].as_str());
                let entry = (ns_path[start].clone(), ExportEntry::Namespace(ExportedNamespace { id: None, ns: inner }));
                let ghost x = entry;
                exports.insert(pos, entry);
                proof {
                    lemma_entries_view_insert(old_v, pos as int, x);
                }
                Ok(())
            },
            Some(i) => {
                let ghost old_v = exports@;
                proof {
                    lemma_entries_view(old_v);
                }
                let mut slot: (String, ExportEntry) = (String::new(), placeholder_entry());
                exports.set_and_swap(i, &mut slot);
                let (key, slot) = slot;
                match slot {
                    ExportEntry::Namespace(ns) => {
                        let mut inner = ns.ns;
                        let ghost inner0 = inner@;
                        let res = define_export_from(&mut inner, export_name, ns_path, start + 1, export);
                        exports.set(i, (key, ExportEntry::Namespace(ExportedNamespace { id: ns.id, ns: inner })));
                        proof {
                            lemma_entries_view_update(old_v, i as int, exports@[i as int]);
                            assert(exports@ =~= old_v.update(i as int, exports@[i as int]));
                        }
                        match res {
                            Ok(()) => Ok(()),
                            Err(e) => {
                                proof {
                                    assert(entries_view(exports@) =~= entries_view(old_v));
                                }
                                Err(e)
                            },
                        }
                    },
                    ExportEntry::Definition(d) => {
                        if d.definition.as_str().unicode_len() == 0 {
                            let mut inner: Vec<(String, ExportEntry)> = Vec::new();
                            proof {
                                lemma_define_in_empty(export_name@, path.drop_first(), export);
                                assert(entries_view(inner@) =~= seq![]);
                            }
                            let res = define_export_from(&mut inner, export_name, ns_path, start + 1, export);
                            exports.set(
                                i,
                                (key, ExportEntry::Namespace(ExportedNamespace { id: Some(d.identifier), ns: inner })),
                            );
                            proof {
                                lemma_entries_view_update(old_v, i as int, exports@[i as int]);
                                assert(exports@ =~= old_v.update(i as int, exports@[i as int]));
                            }
                            Ok(())
                        } else {
                            exports.set(i, (key, ExportEntry::Definition(d)));
                            proof {
                                assert(exports@ =~= old_v);
                            }
                            let mut m = String::new();
                            push_text(&mut m, "Cannot to define namespace export over existing definition ");
                            push_text(&mut m, export_name);
                            Err(m)
                        }
                    },
                }
            },
        }
    }
}

/// The JavaScript that reads the property `name` of the object before it:
/// `.name` where `name` is a valid identifier, else `["name"]` with the
/// name escaped as `str::escape_default` does.
pub open spec fn property_accessor_text(name: Seq<char>) -> Seq<char> {
    if spec_is_valid_ident(name) {
        seq!['.'] + name
    } else {
        seq!['[', '"'] + escape_default_text(name) + seq!['"', ']']
    }
}

/// Returns the accessor of the property `name`, as in `foo.bar` or
/// `foo["kebab-case"]`.
pub fn property_accessor(name: &str) -> (r: String)
    ensures
        r@ == property_accessor_text(name@),
{
    let mut out = String::new();
    if is_valid_ident(name) {
        push_char(&mut out, '.');
        push_text(&mut out, name);
    } else {
        push_char(&mut out, '[');
        push_char(&mut out, '"');
        push_escape_default(&mut out, name);
        push_char(&mut out, '"');
        push_char(&mut out, ']');
    }
    assert(out@ =~= property_accessor_text(name@));
    out
}

/// A name as a key of a TypeScript object type: as it is where it is a
/// valid identifier, else in single quotes.
pub open spec fn ts_key(name: Seq<char>) -> Seq<char> {
    if spec_is_valid_ident(name) {
        name
    } else {
        "'"@ + name + "'"@
    }
}

/// The lines of a TypeScript object type for the entries, each indented
/// by `indent`: a definition as the type of its identifier, a namespace as
/// a nested object type.
pub open spec fn ts_entries(s: Seq<(Seq<char>, EntryView)>, indent: Seq<char>) -> Seq<char>
    decreases s,
{
    if s.len() == 0 {
        seq![]
    } else {
        let e = s.last();
        let t = match e.1 {
            EntryView::Namespace(_, inner) => "{\n"@ + ts_entries(inner, "  "@ + indent) + indent + "}"@,
            EntryView::Definition(d) => "typeof "@ + d.identifier@,
        };
        ts_entries(s.drop_last(), indent) + indent + ts_key(e.0) + ": "@ + t + ",\n"@
    }
}

/// The TypeScript object type of a namespace, its entries indented one
/// level deeper than `indent`, its closing brace by `indent`.
pub open spec fn namespace_ts(s: Seq<(Seq<char>, EntryView)>, indent: Seq<char>) -> Seq<char> {
    "{\n"@ + ts_entries(s, "  "@ + indent) + indent + "}"@
}

/// Appends the line of one entry of a TypeScript object type.
fn push_ts_entry(out: &mut String, indent: &str, name: &str, entry_ts: &str)
    ensures
        final(out)@ == old(out)@ + (indent@ + ts_key(name@) + ": "@ + entry_ts@ + ",\n"@),
{
    let ghost start = out@;
    push_text(out, indent);
    if is_valid_ident(name) {
        push_text(out, name);
    } else {
        push_text(out, "'");
        push_text(out, name);
        push_text(out, "'");
    }
    push_text(out, ": ");
    push_text(out, entry_ts);
    push_text(out, ",\n");
    assert(out@ =~= start + (indent@ + ts_key(name@) + ": "@ + entry_ts@ + ",\n"@));
}

/// Writes the TypeScript object type of a namespace's entries, in their
/// order, with its closing brace indented by `indent`.
pub fn write_namespace_ts(namespace: &Vec<(String, ExportEntry)>, indent: &str) -> (r: String)
    ensures
        r@ == namespace_ts(entries_view(namespace@), indent@),
    decreases namespace,
{
    let ghost es = entries_view(namespace@);
    proof {
        lemma_entries_view(namespace@);
    }
    let mut out = String::new();
    push_text(&mut out, "{\n");
    let mut ind = String::new();
    push_text(&mut ind, "  ");
    push_text(&mut ind, indent);
    let mut i: usize = 0;
    assert(es.take(0) =~= seq![]);
    while i < namespace.len()
        invariant
            i <= namespace@.len(),
            es == entries_view(namespace@),
            es.len() == namespace@.len(),
            forall|j: int| 0 <= j < namespace@.len() ==> #[trigger] es[j] == (namespace@[j].0@, namespace@[j].1.view_entry()),
            ind@ == "  "@ + indent@,
            out@ == "{\n"@ + ts_entries(es.take(i as int), ind@),
        decreases namespace@.len() - i,
    {
        let entry_ts: String = match &namespace[i].1 {
            ExportEntry::Namespace(ns) => {
                proof {
                    assert(decreases_to!(namespace => namespace@));
                    assert(decreases_to!(namespace@ => namespace@[i as int]));
                    assert(decreases_to!(namespace@[i as int] => namespace@[i as int].1));
                    assert(decreases_to!(namespace@[i as int].1 => *ns));
                    assert(decreases_to!(*ns => ns.ns));
                }
                write_namespace_ts(&ns.ns, ind.as_str())
            },
            ExportEntry::Definition(def) => {
                let mut t = String::new();
                push_text(&mut t, "typeof ");
                push_text(&mut t, def.identifier.as_str());
                t
            },
        };
        let ghost before = out@;
        push_ts_entry(&mut out, ind.as_str(), namespace[i].0.as_str(), entry_ts.as_str());
        proof {
            let t = es.take(i as int + 1);
            assert(t.drop_last() =~= es.take(i as int));
            assert(t.last() == es[i as int]);
            let e = es[i as int];
            let et = match e.1 {
                EntryView::Namespace(_, inner) => "{\n"@ + ts_entries(inner, "  "@ + ind@) + ind@ + "}"@,
                EntryView::Definition(d) => "typeof "@ + d.identifier@,
            };
            assert(entry_ts@ == et);
            assert(ts_entries(t, ind@) == ts_entries(es.take(i as int), ind@) + ind@ + ts_key(e.0) + ": "@ + et + ",\n"@);
        }
        i = i + 1;
    }
    assert(es.take(i as int) =~= es);
    push_text(&mut out, indent);
    push_text(&mut out, "}");
    out
}

/// Defines an export as `export_name` inside the namespaces `ns_path`
/// (outermost first), creating the namespaces as needed.
pub fn define_export(
    exports: &mut Vec<(String, ExportEntry)>,
    export_name: &str,
    ns_path: &[String],
    export: ExportDefinition,
) -> (r: Result<(), String>)
    ensures
        match spec_define_export(entries_view(old(exports)@), export_name@, path_views(ns_path@), export) {
            Ok(n) => r is Ok && entries_view(final(exports)@) == n,
            Err(m) => r matches Err(e) && e@ == m && entries_view(final(exports)@) == entries_view(old(exports)@),
        },
{
    assert(path_views(ns_path@).skip(0) =~= path_views(ns_path@));
    define_export_from(exports, export_name, ns_path, 0, export)
}

} // verus!

verus! {

/// The text `static ` for a static member, else nothing.
pub open spec fn static_text(is_static: bool) -> Seq<char> {
    if is_static {
        "static "@
    } else {
        seq![]
    }
}

/// Docs above a TypeScript member: each line indented by two spaces.
pub open spec fn member_docs(docs: Seq<char>) -> Seq<char> {
    indented_lines(text_lines(docs))
}

/// The TypeScript declaration of a getter.
pub open spec fn getter_decl(name: Seq<char>, is_static: bool, g: FieldAccessor) -> Seq<char> {
    member_docs(g.docs@) + "  "@ + static_text(is_static) + "get "@ + name + "(): "@ + g.ty@ + ";\n"@
}

/// The TypeScript declaration of a setter.
pub open spec fn setter_decl(name: Seq<char>, is_static: bool, s: FieldAccessor) -> Seq<char> {
    member_docs(s.docs@) + "  "@ + static_text(is_static) + "set "@ + name + "(value: "@ + s.ty@ + (if s.is_optional {
        " | undefined"@
    } else {
        seq![]
    }) + ");\n"@
}

/// Whether a getter and a setter have the same type; an optional setter
/// of `T` matches a getter of `T | undefined`.
pub open spec fn same_accessor_type(g: FieldAccessor, s: FieldAccessor) -> bool {
    if s.is_optional {
        g.ty@ == s.ty@ + " | undefined"@
    } else {
        g.ty@ == s.ty@
    }
}

/// The declaration of a read-only property.
pub open spec fn readonly_decl(name: Seq<char>, is_static: bool, g: FieldAccessor) -> Seq<char> {
    member_docs(g.docs@) + "  "@ + static_text(is_static) + "readonly "@ + name + (if g.is_optional {
        "?: "@
    } else {
        ": "@
    }) + g.ty@ + ";\n"@
}

/// The declaration of a read-write property with the setter's type.
pub open spec fn property_decl(name: Seq<char>, is_static: bool, docs: Seq<char>, s: FieldAccessor) -> Seq<char> {
    member_docs(docs) + "  "@ + static_text(is_static) + name + (if s.is_optional {
        "?: "@
    } else {
        ": "@
    }) + s.ty@ + ";\n"@
}

/// The TypeScript declaration of a field: a `readonly` property for a
/// getter alone, a setter declaration for a setter alone, and for both a
/// plain property if their types agree (with the getter's docs, or the
/// setter's if the getter has none), else the two declarations.
pub open spec fn field_decl(f: FieldInfo) -> Seq<char> {
    let name = f.name@;
    match f.getter {
        Some(g) => match f.setter {
            None => readonly_decl(name, f.is_static, g),
            Some(s) => if same_accessor_type(g, s) {
                property_decl(name, f.is_static, if g.docs@.len() > 0 { g.docs@ } else { s.docs@ }, s)
            } else {
                getter_decl(name, f.is_static, g) + setter_decl(name, f.is_static, s)
            },
        },
        None => match f.setter {
            Some(s) => setter_decl(name, f.is_static, s),
            None => seq![],
        },
    }
}

/// The TypeScript declarations of fields, in order.
pub open spec fn fields_decl(fs: Seq<FieldInfo>) -> Seq<char>
    decreases fs.len(),
{
    if fs.len() == 0 {
        seq![]
    } else {
        fields_decl(fs.drop_last()) + field_decl(fs.last())
    }
}

fn push_member_docs(out: &mut String, docs: &str)
    ensures
        final(out)@ == old(out)@ + member_docs(docs@),
{
    let lines = split_lines(docs);
    let ghost ls = line_views(lines@);
    let ghost start = out@;
    let mut i: usize = 0;
    while i < lines.len()
        invariant
            i <= lines@.len(),
            ls == line_views(lines@),
            ls == text_lines(docs@),
            out@ == start + indented_lines(ls.take(i as int)),
        decreases lines@.len() - i,
    {
        push_text(out, "  ");
        push_chars(out, &lines[i]);
        push_char(out, '\n');
        proof {
            assert(ls.take(i as int + 1).drop_last() =~= ls.take(i as int));
            assert(ls.take(i as int + 1).last() == lines@[i as int]@);
            assert(out@ =~= start + indented_lines(ls.take(i as int + 1)));
        }
        i = i + 1;
    }
    assert(ls.take(i as int) =~= ls);
}

fn push_static(out: &mut String, is_static: bool)
    ensures
        final(out)@ == old(out)@ + static_text(is_static),
{
    if is_static {
        push_text(out, "static ");
    } else {
        assert(old(out)@ + static_text(is_static) =~= old(out)@);
    }
}

fn push_getter(out: &mut String, name: &str, is_static: bool, g: &FieldAccessor)
    ensures
        final(out)@ == old(out)@ + getter_decl(name@, is_static, *g),
{
    push_member_docs(out, g.docs.as_str());
    push_text(out, "  ");
    push_static(out, is_static);
    push_text(out, "get ");
    push_text(out, name);
    push_text(out, "(): ");
    push_text(out, g.ty.as_str());
    push_text(out, ";\n");
    assert(final(out)@ =~= old(out)@ + getter_decl(name@, is_static, *g));
}

fn push_setter(out: &mut String, name: &str, is_static: bool, s: &FieldAccessor)
    ensures
        final(out)@ == old(out)@ + setter_decl(name@, is_static, *s),
{
    push_member_docs(out, s.docs.as_str());
    push_text(out, "  ");
    push_static(out, is_static);
    push_text(out, "set ");
    push_text(out, name);
    push_text(out, "(value: ");
    push_text(out, s.ty.as_str());
    let ghost mid = out@;
    if s.is_optional {
        push_text(out, " | undefined");
    }
    push_text(out, ");\n");
    assert(final(out)@ =~= old(out)@ + setter_decl(name@, is_static, *s));
}

fn push_readonly(out: &mut String, name: &str, is_static: bool, g: &FieldAccessor)
    ensures
        final(out)@ == old(out)@ + readonly_decl(name@, is_static, *g),
{
    push_member_docs(out, g.docs.as_str());
    push_text(out, "  ");
    push_static(out, is_static);
    push_text(out, "readonly ");
    push_text(out, name);
    if g.is_optional {
        push_text(out, "?: ");
    } else {
        push_text(out, ": ");
    }
    push_text(out, g.ty.as_str());
    push_text(out, ";\n");
    assert(final(out)@ =~= old(out)@ + readonly_decl(name@, is_static, *g));
}

fn push_property(out: &mut String, name: &str, is_static: bool, docs: &str, s: &FieldAccessor)
    ensures
        final(out)@ == old(out)@ + property_decl(name@, is_static, docs@, *s),
{
    push_member_docs(out, docs);
    push_text(out, "  ");
    push_static(out, is_static);
    push_text(out, name);
    if s.is_optional {
        push_text(out, "?: ");
    } else {
        push_text(out, ": ");
    }
    push_text(out, s.ty.as_str());
    push_text(out, ";\n");
    assert(final(out)@ =~= old(out)@ + property_decl(name@, is_static, docs@, *s));
}

fn same_type(g: &FieldAccessor, s: &FieldAccessor) -> (r: bool)
    ensures
        r == same_accessor_type(*g, *s),
{
    if s.is_optional {
        let mut widened = String::new();
        push_text(&mut widened, s.ty.as_str());
        push_text(&mut widened, " | undefined");
        text_is(g.ty.as_str(), widened.as_str())
    } else {
        text_is(g.ty.as_str(), s.ty.as_str())
    }
}

fn push_field_decl(out: &mut String, f: &FieldInfo)
    ensures
        final(out)@ == old(out)@ + field_decl(*f),
{
    let name = f.name.as_str();
    match &f.getter {
        Some(g) => match &f.setter {
            None => push_readonly(out, name, f.is_static, g),
            Some(s) => {
                if same_type(g, s) {
                    if g.docs.as_str().unicode_len() > 0 {
                        push_property(out, name, f.is_static, g.docs.as_str(), s);
                    } else {
                        push_property(out, name, f.is_static, s.docs.as_str(), s);
                    }
                } else {
                    push_getter(out, name, f.is_static, g);
                    push_setter(out, name, f.is_static, s);
                    assert(final(out)@ =~= old(out)@ + field_decl(*f));
                }
            },
        },
        None => match &f.setter {
            Some(s) => push_setter(out, name, f.is_static, s),
            None => {
                assert(old(out)@ + field_decl(*f) =~= old(out)@);
            },
        },
    }
}

/// Writes the TypeScript declarations of a class's fields, in the order
/// in which they were first seen.
pub fn write_class_field_types(class: &ExportedClass, ts_dst: &mut String)
    requires
        class.wf(),
    ensures
        final(ts_dst)@ == old(ts_dst)@ + fields_decl(class.typescript_fields@),
{
    let fields = &class.typescript_fields;
    let ghost start = ts_dst@;
    let mut i: usize = 0;
    while i < fields.len()
        invariant
            i <= fields@.len(),
            fields@ == class.typescript_fields@,
            ts_dst@ == start + fields_decl(fields@.take(i as int)),
        decreases fields@.len() - i,
    {
        push_field_decl(ts_dst, &fields[i]);
        proof {
            assert(fields@.take(i as int + 1).drop_last() =~= fields@.take(i as int));
            assert(fields@.take(i as int + 1).last() == fields@[i as int]);
            assert(ts_dst@ =~= start + fields_decl(fields@.take(i as int + 1)));
        }
        i = i + 1;
    }
    assert(fields@.take(i as int) =~= fields@);
}

} // verus!

verus! {

/// What `wasm_bindgen_shared::identifier::to_valid_ident` makes of a name.
pub uninterp spec fn valid_ident_of(name: Seq<char>) -> Seq<char>;

/// Calls `wasm_bindgen_shared::identifier::to_valid_ident`, which replaces
/// the characters that may not stand in a JavaScript identifier by `_` and
/// prefixes `_` to a reserved word.
///
/// The contract names the result (see [`valid_ident_of`]): it is a
/// function of the name alone. It also states that the result is never
/// empty: the function maps the first character (or, for an empty name,
/// nothing) to at least one character.
#[verifier::external_body]
fn to_valid_ident(name: &str) -> (r: String)
    ensures
        r@ == valid_ident_of(name@),
        r@.len() > 0,
{
    wasm_bindgen_shared::identifier::to_valid_ident(name)
}

/// The identifier `name` followed by the decimal digits of `suffix`.
pub open spec fn numbered(name: Seq<char>, suffix: nat) -> Seq<char> {
    name + decimal(suffix)
}

/// The number of registered names after a call of
/// [`generate_identifier_with`] for a name that becomes `n`: the name's
/// count plus one.
pub open spec fn next_count(m: Map<Seq<char>, usize>, n: Seq<char>) -> nat {
    (if m.contains_key(n) { m[n] as nat } else { 0 }) + 1
}

/// Every registered identifier has been handed out at least once.
pub open spec fn counts_positive(m: Map<Seq<char>, usize>) -> bool {
    forall|k: Seq<char>| m.contains_key(k) ==> m[k] >= 1
}

/// Every count, plus the number of registered identifiers, stays below
/// `usize::MAX` (so that counting on cannot overflow).
pub open spec fn counts_fit(v: Seq<(String, usize)>) -> bool {
    forall|k: Seq<char>|
        #[trigger] entries_map(entries(v)).contains_key(k) ==> entries_map(entries(v))[k] + v.len() < usize::MAX
}

/// Whether `k` is `n` numbered with some suffix of at least `s`.
pub open spec fn numbered_from(k: Seq<char>, n: Seq<char>, s: nat) -> bool {
    exists|t: nat| t >= s && k == #[trigger] numbered(n, t)
}

/// How many of `keys` are `n` numbered with a suffix of at least `s`.
pub open spec fn taken_from(keys: Seq<(Seq<char>, usize)>, n: Seq<char>, s: nat) -> nat
    decreases keys.len(),
{
    if keys.len() == 0 {
        0
    } else {
        taken_from(keys.drop_last(), n, s) + if numbered_from(keys.last().0, n, s) {
            1nat
        } else {
            0nat
        }
    }
}

proof fn lemma_numbered_injective(n: Seq<char>, a: nat, b: nat)
    requires
        numbered(n, a) == numbered(n, b),
    ensures
        a == b,
{
    assert(decimal(a) =~= numbered(n, a).subrange(n.len() as int, numbered(n, a).len() as int));
    assert(decimal(b) =~= numbered(n, b).subrange(n.len() as int, numbered(n, b).len() as int));
    lemma_decimal_injective(a, b);
}

proof fn lemma_taken_bounded(keys: Seq<(Seq<char>, usize)>, n: Seq<char>, s: nat)
    ensures
        taken_from(keys, n, s) <= keys.len(),
    decreases keys.len(),
{
    if keys.len() > 0 {
        lemma_taken_bounded(keys.drop_last(), n, s);
    }
}

/// Moving past a taken suffix leaves one fewer numbered name to meet.
proof fn lemma_taken_decreases(keys: Seq<(Seq<char>, usize)>, n: Seq<char>, s: nat, i: int)
    requires
        0 <= i < keys.len(),
        keys[i].0 == numbered(n, s),
    ensures
        taken_from(keys, n, s + 1) < taken_from(keys, n, s),
    decreases keys.len(),
{
    lemma_taken_monotone(keys, n, s);
    let t = keys.drop_last();
    assert(numbered_from(keys[i].0, n, s));
    if i == keys.len() - 1 {
        lemma_taken_monotone(t, n, s);
        if numbered_from(keys.last().0, n, s + 1) {
            let u = choose|u: nat| u >= s + 1 && keys.last().0 == #[trigger] numbered(n, u);
            lemma_numbered_injective(n, u, s);
        }
    } else {
        assert(t[i] == keys[i]);
        lemma_taken_decreases(t, n, s, i);
        if numbered_from(keys.last().0, n, s + 1) {
            let u = choose|u: nat| u >= s + 1 && keys.last().0 == #[trigger] numbered(n, u);
            assert(numbered_from(keys.last().0, n, s));
        }
    }
}

proof fn lemma_taken_monotone(keys: Seq<(Seq<char>, usize)>, n: Seq<char>, s: nat)
    ensures
        taken_from(keys, n, s + 1) <= taken_from(keys, n, s),
    decreases keys.len(),
{
    if keys.len() > 0 {
        lemma_taken_monotone(keys.drop_last(), n, s);
        if numbered_from(keys.last().0, n, s + 1) {
            let u = choose|u: nat| u >= s + 1 && keys.last().0 == #[trigger] numbered(n, u);
            assert(numbered_from(keys.last().0, n, s));
        }
    }
}

/// What a call of [`generate_identifier_with`] does, for a name that
/// becomes `n` as a valid identifier, to the registered counts `m` (which
/// become `m2`) and what it returns (`r`): the first time, `n` itself, with
/// count one; after that, `n` numbered with the smallest suffix, from the
/// name's next count on, that is not registered yet, which is then
/// registered with count one while `n`'s count becomes that suffix.
pub open spec fn generated_identifier(
    m: Map<Seq<char>, usize>,
    n: Seq<char>,
    r: Seq<char>,
    m2: Map<Seq<char>, usize>,
) -> bool {
    let c = next_count(m, n);
    &&& c == 1 ==> r == n && m2 == m.insert(n, 1)
    &&& c > 1 ==> exists|s: nat|
        c <= s && r == numbered(n, s) && !m.contains_key(r) && (forall|t: nat|
            c <= t < s ==> m.contains_key(#[trigger] numbered(n, t))) && m2 == m.insert(n, s as usize).insert(r, 1)
}

/// Returns a fresh identifier for `name`: `name` made a valid identifier,
/// the first time; after that, the same followed by the smallest number
/// (from the count of earlier requests on) that gives a name not yet
/// registered. The counts of handed-out identifiers are kept in
/// `identifiers`.
pub fn generate_identifier_with(identifiers: &mut Vec<(String, usize)>, name: &str) -> (r: String)
    requires
        keys_distinct(entries(old(identifiers)@)),
        counts_fit(old(identifiers)@),
    ensures
        keys_distinct(entries(final(identifiers)@)),
        r@.len() > 0,
        generated_identifier(
            entries_map(entries(old(identifiers)@)),
            valid_ident_of(name@),
            r@,
            entries_map(entries(final(identifiers)@)),
        ),
        ({
            let m = entries_map(entries(old(identifiers)@));
            counts_positive(m) ==> !m.contains_key(r@) && counts_positive(
                entries_map(entries(final(identifiers)@)),
            ) && entries_map(entries(final(identifiers)@)).contains_key(r@)
        }),
{
    let ghost s0 = entries(identifiers@);
    let ghost m = entries_map(s0);
    let n = to_valid_ident(name);
    let ghost nv = n@;
    proof {
        lemma_entries_map(s0, nv);
    }
    let count: usize = match find_key(identifiers, n.as_str()) {
        Some(i) => {
            assert(s0[i as int].0 == nv);
            identifiers[i].1
        },
        None => 0,
    };
    assert(count + 1 == next_count(m, nv));
    assert(s0.len() == identifiers@.len());
    assert(m.contains_key(nv) ==> m[nv] + s0.len() < usize::MAX);
    let cnt = count + 1;
    if cnt == 1 {
        let key = n.clone();
        set_entry(identifiers, key, 1);
        proof {
            if counts_positive(m) && m.contains_key(nv) {
                assert(m[nv] >= 1);
            }
            let m1 = entries_map(entries(identifiers@));
            if counts_positive(m) {
                assert forall|k: Seq<char>| m1.contains_key(k) implies m1[k] >= 1 by {
                    if k != nv {
                        assert(m.contains_key(k));
                    }
                }
            }
        }
        n
    } else {
        let mut suffix: usize = cnt;
        let mut candidate = String::new();
        push_text(&mut candidate, n.as_str());
        push_decimal(&mut candidate, suffix as u64);
        proof {
            lemma_taken_bounded(s0, nv, cnt as nat);
        }
        let ghost budget = taken_from(s0, nv, cnt as nat);
        loop
            invariant
                identifiers@ == old(identifiers)@,
                s0 == entries(identifiers@),
                m == entries_map(s0),
                keys_distinct(s0),
                nv == n@,
                cnt <= suffix,
                candidate@ == numbered(nv, suffix as nat),
                budget == taken_from(s0, nv, cnt as nat),
                budget <= s0.len(),
                suffix - cnt + taken_from(s0, nv, suffix as nat) <= budget,
                cnt + s0.len() <= usize::MAX,
                forall|t: nat| cnt <= t < suffix ==> m.contains_key(#[trigger] numbered(nv, t)),
            ensures
                !m.contains_key(candidate@),
                cnt <= suffix,
                candidate@ == numbered(nv, suffix as nat),
                forall|t: nat| cnt <= t < suffix ==> m.contains_key(#[trigger] numbered(nv, t)),
            decreases taken_from(s0, nv, suffix as nat),
        {
            proof {
                lemma_entries_map(s0, candidate@);
            }
            match find_key(identifiers, candidate.as_str()) {
                None => {
                    break;
                },
                Some(i) => {
                    proof {
                        assert(s0[i as int].0 == candidate@);
                        lemma_taken_decreases(s0, nv, suffix as nat, i as int);
                    }
                    suffix = suffix + 1;
                    candidate = String::new();
                    push_text(&mut candidate, n.as_str());
                    push_decimal(&mut candidate, suffix as u64);
                },
            }
        }
        let ghost cv = candidate@;
        proof {
            lemma_decimal_nonempty(suffix as nat);
            assert(cv.len() > nv.len());
        }
        set_entry(identifiers, n, suffix);
        let result = candidate.clone();
        set_entry(identifiers, candidate, 1);
        proof {
            let m1 = entries_map(entries(identifiers@));
            assert(m1 == m.insert(nv, suffix).insert(cv, 1));
            if counts_positive(m) {
                assert forall|k: Seq<char>| m1.contains_key(k) implies m1[k] >= 1 by {
                    if k != nv && k != cv {
                        assert(m.contains_key(k));
                    }
                }
            }
        }
        result
    }
}

} // verus!

verus! {

/// Returns the identifier for a qualified name, reusing a previously
/// registered one or generating (and storing) a new one; the identifiers
/// handed out so far are counted in `identifiers`.
pub fn get_or_create_identifier(
    qualified_to_identifier: &mut Vec<(String, String)>,
    identifiers: &mut Vec<(String, usize)>,
    qualified_name: &str,
) -> (r: String)
    requires
        keys_distinct(entries(old(qualified_to_identifier)@)),
        keys_distinct(entries(old(identifiers)@)),
        counts_fit(old(identifiers)@),
    ensures
        keys_distinct(entries(final(qualified_to_identifier)@)),
        keys_distinct(entries(final(identifiers)@)),
        entries_map(entries(final(qualified_to_identifier)@)) == entries_map(
            entries(old(qualified_to_identifier)@),
        ).insert(qualified_name@, r@),
        entries_map(entries(old(qualified_to_identifier)@)).contains_key(qualified_name@) ==> {
            &&& r@ == entries_map(entries(old(qualified_to_identifier)@))[qualified_name@]
            &&& final(identifiers)@ == old(identifiers)@
        },
        !entries_map(entries(old(qualified_to_identifier)@)).contains_key(qualified_name@) ==> generated_identifier(
            entries_map(entries(old(identifiers)@)),
            valid_ident_of(qualified_name@),
            r@,
            entries_map(entries(final(identifiers)@)),
        ),
        !entries_map(entries(old(qualified_to_identifier)@)).contains_key(qualified_name@) && counts_positive(
            entries_map(entries(old(identifiers)@)),
        ) ==> {
            &&& !entries_map(entries(old(identifiers)@)).contains_key(r@)
            &&& entries_map(entries(final(identifiers)@)).contains_key(r@)
            &&& counts_positive(entries_map(entries(final(identifiers)@)))
        },
{
    let ghost q0 = entries(qualified_to_identifier@);
    proof {
        lemma_entries_map(q0, qualified_name@);
    }
    match find_key(qualified_to_identifier, qualified_name) {
        Some(i) => {
            assert(q0[i as int].0 == qualified_name@);
            let id = qualified_to_identifier[i].1.clone();
            proof {
                assert(entries_map(q0).insert(qualified_name@, id@) =~= entries_map(q0));
            }
            id
        },
        None => {
            let id = generate_identifier_with(identifiers, qualified_name);
            let mut key = String::new();
            push_text(&mut key, qualified_name);
            set_entry(qualified_to_identifier, key, id.clone());
            id
        },
    }
}

} // verus!

verus! {

/// The key under which the class for `name` is registered: the Rust name
/// that `q` gives for the qualified name `name`, or `name` itself.
pub open spec fn class_key(q: Map<Seq<char>, Seq<char>>, name: Seq<char>) -> Seq<char> {
    if q.contains_key(name) {
        q[name]
    } else {
        name
    }
}

/// Whether the class under `key` is unregistered or has no identifier yet.
pub open spec fn needs_identifier(cm: Map<Seq<char>, ExportedClass>, key: Seq<char>) -> bool {
    !cm.contains_key(key) || cm[key].identifier@.len() == 0
}

/// The name that a new identifier for the class under `key` is made from:
/// its qualified name, else its JavaScript name, else the key.
pub open spec fn identifier_source(cm: Map<Seq<char>, ExportedClass>, key: Seq<char>) -> Seq<char> {
    if cm.contains_key(key) {
        match cm[key].qualified_name {
            Some(q) => q@,
            None => match cm[key].js_name {
                Some(j) => j@,
                None => key,
            },
        }
    } else {
        key
    }
}

/// A class as [`ExportedClass::new`] makes it, leaving its identifier aside.
pub open spec fn is_blank_class(c: ExportedClass) -> bool {
    &&& c.wf()
    &&& c.contents@.len() == 0
    &&& c.typescript@.len() == 0
    &&& c.typescript_fields@.len() == 0
    &&& c.readable_properties@.len() == 0
    &&& !c.generate_typescript && !c.private && !c.has_constructor
    &&& !c.wrap_needed && !c.unwrap_needed && !c.is_inspectable
    &&& c.js_namespace is None && c.js_name is None && c.qualified_name is None
}

/// `c` is the class registered under `key` in `cm` (a blank one where
/// there is none) with the identifier `id`.
pub open spec fn class_with_identifier(
    cm: Map<Seq<char>, ExportedClass>,
    key: Seq<char>,
    c: ExportedClass,
    id: Seq<char>,
) -> bool {
    &&& c.identifier@ == id
    &&& cm.contains_key(key) ==> c == (ExportedClass { identifier: c.identifier, ..cm[key] })
    &&& !cm.contains_key(key) ==> is_blank_class(c)
}

/// Returns the identifier of the class for `name` (a Rust name, or a
/// qualified name that `qualified_to_rust_name` maps to one). A class that
/// is not registered yet, or has no identifier, first gets one generated
/// from its qualified name, its JavaScript name or its key; an unregistered
/// class is registered blank with it.
pub fn require_class_identifier(
    classes: &mut Vec<(String, ExportedClass)>,
    qualified_to_rust_name: &Vec<(String, String)>,
    identifiers: &mut Vec<(String, usize)>,
    name: &str,
) -> (r: String)
    requires
        keys_distinct(entries(old(classes)@)),
        keys_distinct(entries(qualified_to_rust_name@)),
        keys_distinct(entries(old(identifiers)@)),
        counts_fit(old(identifiers)@),
    ensures
        keys_distinct(entries(final(classes)@)),
        keys_distinct(entries(final(identifiers)@)),
        ({
            let key = class_key(entries_map(entries(qualified_to_rust_name@)), name@);
            let cm = entries_map(entries(old(classes)@));
            let cm2 = entries_map(entries(final(classes)@));
            let m = entries_map(entries(old(identifiers)@));
            let m2 = entries_map(entries(final(identifiers)@));
            &&& cm2.contains_key(key) && cm2[key].identifier@ == r@ && r@.len() > 0
            &&& !needs_identifier(cm, key) ==> {
                &&& r@ == cm[key].identifier@
                &&& final(classes)@ == old(classes)@
                &&& final(identifiers)@ == old(identifiers)@
            }
            &&& needs_identifier(cm, key) ==> {
                &&& generated_identifier(m, valid_ident_of(identifier_source(cm, key)), r@, m2)
                &&& cm2 == cm.insert(key, cm2[key])
                &&& class_with_identifier(cm, key, cm2[key], r@)
                &&& counts_positive(m) ==> !m.contains_key(r@) && counts_positive(m2)
            }
        }),
{
    let ghost q = entries_map(entries(qualified_to_rust_name@));
    let ghost cm = entries_map(entries(classes@));
    proof {
        lemma_entries_map(entries(qualified_to_rust_name@), name@);
    }
    let key: String = match find_key(qualified_to_rust_name, name) {
        Some(j) => {
            assert(entries(qualified_to_rust_name@)[j as int].0 == name@);
            qualified_to_rust_name[j].1.clone()
        },
        None => {
            let mut k = String::new();
            push_text(&mut k, name);
            k
        },
    };
    let ghost kv = key@;
    assert(kv == class_key(q, name@));
    proof {
        lemma_entries_map(entries(classes@), kv);
    }
    match find_key(classes, key.as_str()) {
        Some(i) => {
            assert(entries(classes@)[i as int].0 == kv);
            assert(cm[kv] == classes@[i as int].1);
            if classes[i].1.identifier.as_str().unicode_len() > 0 {
                return classes[i].1.identifier.clone();
            }
            let source: String = match &classes[i].1.qualified_name {
                Some(qn) => qn.clone(),
                None => match &classes[i].1.js_name {
                    Some(jn) => jn.clone(),
                    None => key.clone(),
                },
            };
            let identifier = generate_identifier_with(identifiers, source.as_str());
            let (k, mut c) = take_at(classes, i);
            let ghost c0 = c;
            c.identifier = identifier.clone();
            assert(c == (ExportedClass { identifier: c.identifier, ..c0 }));
            set_entry(classes, k, c);
            proof {
                let cm2 = entries_map(entries(classes@));
                assert(cm2 =~= cm.insert(kv, c));
            }
            identifier
        },
        None => {
            let identifier = generate_identifier_with(identifiers, key.as_str());
            let mut c = ExportedClass::new();
            c.identifier = identifier.clone();
            set_entry(classes, key, c);
            identifier
        },
    }
}

} // verus!
