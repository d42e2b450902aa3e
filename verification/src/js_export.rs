//! Placing the JavaScript generated for what the Rust side exports: a free
//! function gets the identifier of its qualified name, its documentation
//! and TypeScript declaration, and its entry among the module's exports; a
//! constructor or method goes into its class, which gets an identifier when
//! it is first required, and an accessor records its field for the
//! class's TypeScript declarations.

use vstd::prelude::*;
use crate::intrinsic::texts;
use crate::js::{
    define_export, entries_view, format_doc_comments, generate_identifier_with, generated_identifier,
    get_or_create_identifier, indented_lines, opt_text, path_views, spec_define_export, spec_format_doc_comments,
    text_lines, valid_ident_of, with_accessor, field_is, EntryView, ExportDefinition, ExportEntry, ExportedClass,
    FieldAccessor, FieldInfo, FieldLocation,
};
use crate::keyed::{find_key, lemma_entries_map, set_entry, take_at};
use crate::keyed::{entries, entries_map, keys_distinct};
use crate::js::counts_fit;
use crate::strings::push_text;

verus! {

/// The texts joined with `sep`.
pub open spec fn joined_with(p: Seq<Seq<char>>, sep: Seq<char>) -> Seq<char>
    decreases p.len(),
{
    if p.len() == 0 {
        seq![]
    } else if p.len() == 1 {
        p[0]
    } else {
        joined_with(p.drop_last(), sep) + sep + p.last()
    }
}

/// The name under which the Wasm module knows an item of a JavaScript
/// namespace: the namespace's parts and the name joined with `__`; an item
/// outside any namespace keeps its name.
pub open spec fn spec_qualified_name(ns: Option<Seq<Seq<char>>>, name: Seq<char>) -> Seq<char> {
    match ns {
        Some(p) => if p.len() > 0 {
            joined_with(p, "__"@) + "__"@ + name
        } else {
            name
        },
        None => name,
    }
}

/// Calls `wasm_bindgen_shared::qualified_name`, which joins the parts of
/// the namespace, then the name, with `__`, and returns the name alone
/// where the namespace is missing or empty.
#[verifier::external_body]
fn qualified_name(js_namespace: Option<&[String]>, js_name: &str) -> (r: String)
    ensures
        r@ == spec_qualified_name(
            match js_namespace {
                Some(s) => Some(texts(s@)),
                None => None,
            },
            js_name@,
        ),
{
    wasm_bindgen_shared::qualified_name(js_namespace, js_name)
}

/// The namespace of an export as plain values.
pub open spec fn namespace_view(ns: Option<Vec<String>>) -> Option<Seq<Seq<char>>> {
    match ns {
        Some(v) => Some(texts(v@)),
        None => None,
    }
}

/// The path of namespaces an export is defined under.
pub open spec fn namespace_path(ns: Option<Vec<String>>) -> Seq<Seq<char>> {
    match ns {
        Some(v) => path_views(v@),
        None => seq![],
    }
}

/// Whether `def` defines the exported function `id` with the body `code`,
/// documented by `js_docs`, with its TypeScript signature `ts_sig` (where
/// one is generated) declared in the definition, documented by `ts_docs`;
/// for Emscripten the declaration goes straight to the TypeScript output
/// instead.
pub open spec fn function_definition(
    def: ExportDefinition,
    id: Seq<char>,
    code: Seq<char>,
    js_docs: Seq<char>,
    ts_docs: Seq<char>,
    ts_sig: Option<Seq<char>>,
    emscripten: bool,
) -> bool {
    &&& def.identifier@ == id
    &&& def.comments matches Some(c) && c@ == js_docs
    &&& def.definition@ == "function "@ + id + code + "\n"@
    &&& !def.private
    &&& match ts_sig {
        Some(sig) => if emscripten {
            def.ts_definition@ == Seq::<char>::empty() && def.ts_comments is None
        } else {
            def.ts_definition@ == "function "@ + id + sig + ";\n"@ && (def.ts_comments matches Some(t) && t@
                == ts_docs)
        },
        None => def.ts_definition@ == Seq::<char>::empty() && def.ts_comments is None,
    }
}

/// Whether `id` is the identifier of `key` (a class name, a qualified
/// export name), from the identifiers given by key `q0` (which become `q1`)
/// and the counts of identifiers `m0` (which become `m1`): the one given
/// before, else a fresh one generated from the key.
pub open spec fn keyed_identifier(
    q0: Map<Seq<char>, Seq<char>>,
    q1: Map<Seq<char>, Seq<char>>,
    m0: Map<Seq<char>, usize>,
    m1: Map<Seq<char>, usize>,
    key: Seq<char>,
    id: Seq<char>,
) -> bool {
    &&& q1 == q0.insert(key, id)
    &&& if q0.contains_key(key) {
        id == q0[key] && m1 == m0
    } else {
        generated_identifier(m0, valid_ident_of(key), id, m1)
    }
}

/// What placing the exported function `name` does: identifiers `q0` to
/// `q1` (by qualified name) and counts `m0` to `m1`, TypeScript output `t0`
/// to `t1`, exports `e0` to `e1`, result `r`.
pub open spec fn function_placed(
    q0: Seq<(Seq<char>, Seq<char>)>,
    q1: Seq<(Seq<char>, Seq<char>)>,
    m0: Map<Seq<char>, usize>,
    m1: Map<Seq<char>, usize>,
    t0: Seq<char>,
    t1: Seq<char>,
    e0: Seq<(Seq<char>, EntryView)>,
    e1: Seq<(Seq<char>, EntryView)>,
    name: Seq<char>,
    ns: Option<Vec<String>>,
    comments: Seq<char>,
    js_doc: Seq<char>,
    ts_doc: Option<Seq<char>>,
    ts_sig: Option<Seq<char>>,
    code: Seq<char>,
    emscripten: bool,
    r: Result<(), String>,
) -> bool {
    let js_docs = spec_format_doc_comments(comments, Some(js_doc));
    let ts_docs = spec_format_doc_comments(comments, ts_doc);
    exists|id: Seq<char>|
        {
            &&& #[trigger] keyed_identifier(
                entries_map(q0),
                entries_map(q1),
                m0,
                m1,
                spec_qualified_name(namespace_view(ns), name),
                id,
            )
            &&& t1 == match ts_sig {
                Some(sig) => if emscripten {
                    t0 + ts_docs + id + sig + ";\n"@
                } else {
                    t0
                },
                None => t0,
            }
            &&& exists|def: ExportDefinition|
                {
                    &&& #[trigger] function_definition(def, id, code, js_docs, ts_docs, ts_sig, emscripten)
                    &&& match spec_define_export(e0, name, namespace_path(ns), def) {
                        Ok(x) => r is Ok && e1 == x,
                        Err(m) => (r matches Err(y) && y@ == m) && e1 == e0,
                    }
                }
        }
}

/// Places the JavaScript function generated for the exported function
/// `name` (in the namespace `js_namespace`), whose body is `code`: it gets
/// the identifier of its qualified name, its documentation, and its
/// TypeScript declaration where `ts_sig` is given, and is defined among
/// `exports`. See [`function_placed`].
pub fn place_function_export(
    exports: &mut Vec<(String, ExportEntry)>,
    qualified_to_identifier: &mut Vec<(String, String)>,
    identifiers: &mut Vec<(String, usize)>,
    typescript: &mut String,
    name: &str,
    js_namespace: &Option<Vec<String>>,
    comments: &str,
    js_doc: String,
    ts_doc: Option<String>,
    ts_sig: &Option<String>,
    code: &str,
    emscripten: bool,
) -> (r: Result<(), String>)
    requires
        keys_distinct(entries(old(qualified_to_identifier)@)),
        keys_distinct(entries(old(identifiers)@)),
        counts_fit(old(identifiers)@),
    ensures
        function_placed(
            entries(old(qualified_to_identifier)@),
            entries(final(qualified_to_identifier)@),
            entries_map(entries(old(identifiers)@)),
            entries_map(entries(final(identifiers)@)),
            old(typescript)@,
            final(typescript)@,
            entries_view(old(exports)@),
            entries_view(final(exports)@),
            name@,
            *js_namespace,
            comments@,
            js_doc@,
            opt_text(ts_doc),
            opt_text(*ts_sig),
            code@,
            emscripten,
            r,
        ),
        keys_distinct(entries(final(qualified_to_identifier)@)),
        keys_distinct(entries(final(identifiers)@)),
{
    let ghost q0 = entries(qualified_to_identifier@);
    let ghost m0 = entries_map(entries(identifiers@));
    let ghost t0 = typescript@;
    let ghost jd = js_doc@;
    let ghost td = opt_text(ts_doc);
    let empty: Vec<String> = Vec::new();
    let ns: &[String] = match js_namespace {
        Some(v) => v.as_slice(),
        None => empty.as_slice(),
    };
    let qualified = match js_namespace {
        Some(v) => qualified_name(Some(v.as_slice()), name),
        None => qualified_name(None, name),
    };
    let identifier = get_or_create_identifier(qualified_to_identifier, identifiers, qualified.as_str());
    let ghost id = identifier@;
    let js_docs = format_doc_comments(comments, Some(js_doc));
    let ts_docs = format_doc_comments(comments, ts_doc);
    let mut ts_definition = String::new();
    let mut ts_comments: Option<String> = None;
    match ts_sig {
        Some(sig) => {
            if emscripten {
                push_text(typescript, ts_docs.as_str());
                push_text(typescript, identifier.as_str());
                push_text(typescript, sig.as_str());
                push_text(typescript, ";\n");
            } else {
                push_text(&mut ts_definition, "function ");
                push_text(&mut ts_definition, identifier.as_str());
                push_text(&mut ts_definition, sig.as_str());
                push_text(&mut ts_definition, ";\n");
                ts_comments = Some(ts_docs);
            }
        },
        None => {},
    }
    let mut definition = String::new();
    push_text(&mut definition, "function ");
    push_text(&mut definition, identifier.as_str());
    push_text(&mut definition, code);
    push_text(&mut definition, "\n");
    let def = ExportDefinition {
        identifier,
        comments: Some(js_docs),
        definition,
        ts_comments,
        ts_definition,
        private: false,
    };
    let ghost gd = def;
    proof {
        assert(ns@ == match *js_namespace {
            Some(v) => v@,
            None => Seq::<String>::empty(),
        });
        assert(path_views(ns@) == namespace_path(*js_namespace));
    }
    let r = define_export(exports, name, ns, def);
    proof {
        assert(keyed_identifier(
            entries_map(q0),
            entries_map(entries(qualified_to_identifier@)),
            m0,
            entries_map(entries(identifiers@)),
            qualified@,
            id,
        ));
        assert(function_definition(
            gd,
            id,
            code@,
            spec_format_doc_comments(comments@, Some(jd)),
            spec_format_doc_comments(comments@, td),
            opt_text(*ts_sig),
            emscripten,
        ));
    }
    r
}

/// The key under which the class `name` is kept: its Rust name where
/// `name` is a qualified name that has one.
pub open spec fn class_key(q2r: Seq<(Seq<char>, Seq<char>)>, name: Seq<char>) -> Seq<char> {
    let m = entries_map(q2r);
    if m.contains_key(name) {
        m[name]
    } else {
        name
    }
}

/// Whether `c` is a class with nothing in it yet.
pub open spec fn fresh_class(c: ExportedClass) -> bool {
    &&& c.wf()
    &&& c.contents@.len() == 0
    &&& c.typescript@.len() == 0
    &&& c.typescript_fields@.len() == 0
    &&& c.readable_properties@.len() == 0
    &&& !c.generate_typescript && !c.private && !c.has_constructor
    &&& !c.wrap_needed && !c.unwrap_needed && !c.is_inspectable
    &&& c.js_namespace is None && c.js_name is None && c.qualified_name is None
}

/// The name a class's identifier is made from: its qualified name, else
/// its JavaScript name, else its key.
pub open spec fn identifier_base(c: ExportedClass, key: Seq<char>) -> Seq<char> {
    match c.qualified_name {
        Some(q) => q@,
        None => match c.js_name {
            Some(j) => j@,
            None => key,
        },
    }
}

/// Whether each class is well formed.
pub open spec fn classes_wf(c: Seq<(Seq<char>, ExportedClass)>) -> bool {
    forall|j: int| 0 <= j < c.len() ==> (#[trigger] c[j]).1.wf()
}

/// What requiring the class `key` does to the classes (`c0` to `c1`) and
/// the counts of identifiers (`m0` to `m1`), the class landing at `i`: a
/// class with an identifier is left as it is; else the class (a new one
/// where there is none) gets a fresh identifier made from its name.
pub open spec fn class_required(
    c0: Seq<(Seq<char>, ExportedClass)>,
    c1: Seq<(Seq<char>, ExportedClass)>,
    m0: Map<Seq<char>, usize>,
    m1: Map<Seq<char>, usize>,
    key: Seq<char>,
    i: int,
) -> bool {
    let m = entries_map(c0);
    let c = entries_map(c1)[key];
    &&& 0 <= i < c1.len()
    &&& c1[i] == (key, c)
    &&& keys_distinct(c1)
    &&& if m.contains_key(key) && m[key].identifier@.len() > 0 {
        c1 == c0 && m1 == m0
    } else {
        &&& entries_map(c1) == m.insert(key, c)
        &&& if m.contains_key(key) {
            c == (ExportedClass { identifier: c.identifier, ..m[key] }) && generated_identifier(
                m0,
                valid_ident_of(identifier_base(m[key], key)),
                c.identifier@,
                m1,
            )
        } else {
            fresh_class(c) && generated_identifier(m0, valid_ident_of(key), c.identifier@, m1)
        }
    }
}

/// Finds the class `name` (by its Rust name where it is a qualified name),
/// giving it an identifier where it has none; returns where it is.
pub fn require_class(
    classes: &mut Vec<(String, ExportedClass)>,
    qualified_to_rust_name: &Vec<(String, String)>,
    identifiers: &mut Vec<(String, usize)>,
    name: &str,
) -> (i: usize)
    requires
        keys_distinct(entries(old(classes)@)),
        classes_wf(entries(old(classes)@)),
        keys_distinct(entries(qualified_to_rust_name@)),
        keys_distinct(entries(old(identifiers)@)),
        counts_fit(old(identifiers)@),
    ensures
        classes_wf(entries(final(classes)@)),
        class_required(
            entries(old(classes)@),
            entries(final(classes)@),
            entries_map(entries(old(identifiers)@)),
            entries_map(entries(final(identifiers)@)),
            class_key(entries(qualified_to_rust_name@), name@),
            i as int,
        ),
        keys_distinct(entries(final(identifiers)@)),
{
    let ghost c0 = entries(classes@);
    let ghost q = entries(qualified_to_rust_name@);
    proof {
        lemma_entries_map(q, name@);
    }
    let key: String = match find_key(qualified_to_rust_name, name) {
        Some(k) => {
            assert(q[k as int].0 == name@);
            qualified_to_rust_name[k].1.clone()
        },
        None => {
            let mut k = String::new();
            push_text(&mut k, name);
            k
        },
    };
    assert(key@ == class_key(q, name@));
    proof {
        lemma_entries_map(c0, key@);
    }
    let class = match find_key(classes, key.as_str()) {
        Some(i) => {
            assert(c0[i as int].0 == key@);
            if classes[i].1.identifier.as_str().unicode_len() > 0 {
                assert(entries(classes@)[i as int] == (key@, entries_map(c0)[key@]));
                return i;
            }
            assert(c0[i as int].1.wf());
            let (_, mut class) = take_at(classes, i);
            let base: String = match &class.qualified_name {
                Some(qn) => qn.clone(),
                None => match &class.js_name {
                    Some(j) => j.clone(),
                    None => key.clone(),
                },
            };
            let id = generate_identifier_with(identifiers, base.as_str());
            class.identifier = id;
            class
        },
        None => {
            let mut class = ExportedClass::new();
            let id = generate_identifier_with(identifiers, key.as_str());
            class.identifier = id;
            class
        },
    };
    let ghost cv = class;
    set_entry(classes, key.clone(), class);
    let ghost c1 = entries(classes@);
    proof {
        assert(entries_map(c1) =~= entries_map(c0).insert(key@, cv));
        lemma_entries_map(c1, key@);
        assert forall|j: int| 0 <= j < c1.len() implies (#[trigger] c1[j]).1.wf() by {
            let k = c1[j].0;
            lemma_entries_map(c1, k);
            lemma_entries_map(c0, k);
            if k != key@ {
                let j0 = choose|j0: int| 0 <= j0 < c0.len() && (#[trigger] c0[j0]).0 == k;
                assert(c0[j0].1.wf());
            }
        }
    }
    match find_key(classes, key.as_str()) {
        Some(i) => i,
        None => {
            assert(false);
            0
        },
    }
}

/// Whether `c2` is the class `c` with a member added: `js` (with its docs,
/// prefix and name) in the body and, where `ts` is given, its TypeScript
/// declaration with the docs indented above it.
pub open spec fn member_pushed(
    c: ExportedClass,
    c2: ExportedClass,
    name: Seq<char>,
    prefix: Seq<char>,
    js_docs: Seq<char>,
    js: Seq<char>,
    ts_docs: Seq<char>,
    ts: Option<Seq<char>>,
) -> bool {
    &&& c2.contents@ == c.contents@ + js_docs + prefix + name + js + seq!['\n']
    &&& c2.typescript@ == match ts {
        None => c.typescript@,
        Some(t) => c.typescript@ + indented_lines(text_lines(ts_docs)) + "  "@ + prefix + name + t + ";\n"@,
    }
    &&& c2 == (ExportedClass { contents: c2.contents, typescript: c2.typescript, ..c })
}

/// The message for a second constructor of the class `class`.
pub open spec fn duplicate_constructor_message(class: Seq<char>) -> Seq<char> {
    "found duplicate constructor for class `"@ + class + "`"@
}

/// What placing the constructor of the class `class` (kept under `key`)
/// does to the classes (`c0` to `c1`) and the counts of identifiers (`m0`
/// to `m1`): the class is required; a class has one constructor, which is
/// added as its member `constructor`.
pub open spec fn constructor_placed(
    c0: Seq<(Seq<char>, ExportedClass)>,
    c1: Seq<(Seq<char>, ExportedClass)>,
    m0: Map<Seq<char>, usize>,
    m1: Map<Seq<char>, usize>,
    key: Seq<char>,
    class: Seq<char>,
    js_docs: Seq<char>,
    code: Seq<char>,
    ts_docs: Seq<char>,
    ts_sig: Option<Seq<char>>,
    r: Result<(), String>,
) -> bool {
    exists|mid: Seq<(Seq<char>, ExportedClass)>, i: int|
        {
            &&& #[trigger] class_required(c0, mid, m0, m1, key, i)
            &&& if mid[i].1.has_constructor {
                (r matches Err(e) && e@ == duplicate_constructor_message(class)) && c1 == mid
            } else {
                &&& r is Ok
                &&& c1 == mid.update(i, (key, c1[i].1))
                &&& member_pushed(
                    ExportedClass { has_constructor: true, ..mid[i].1 },
                    c1[i].1,
                    "constructor"@,
                    ""@,
                    js_docs,
                    code,
                    ts_docs,
                    ts_sig,
                )
            }
        }
}

/// Places the JavaScript generated for the constructor of the exported
/// class `class`; see [`constructor_placed`].
pub fn place_constructor(
    classes: &mut Vec<(String, ExportedClass)>,
    qualified_to_rust_name: &Vec<(String, String)>,
    identifiers: &mut Vec<(String, usize)>,
    class: &str,
    js_docs: &str,
    code: &str,
    ts_docs: &str,
    ts_sig: &Option<String>,
) -> (r: Result<(), String>)
    requires
        keys_distinct(entries(old(classes)@)),
        classes_wf(entries(old(classes)@)),
        keys_distinct(entries(qualified_to_rust_name@)),
        keys_distinct(entries(old(identifiers)@)),
        counts_fit(old(identifiers)@),
    ensures
        constructor_placed(
            entries(old(classes)@),
            entries(final(classes)@),
            entries_map(entries(old(identifiers)@)),
            entries_map(entries(final(identifiers)@)),
            class_key(entries(qualified_to_rust_name@), class@),
            class@,
            js_docs@,
            code@,
            ts_docs@,
            opt_text(*ts_sig),
            r,
        ),
        keys_distinct(entries(final(classes)@)),
        keys_distinct(entries(final(identifiers)@)),
{
    let i = require_class(classes, qualified_to_rust_name, identifiers, class);
    let ghost mid = entries(classes@);
    let ghost key = class_key(entries(qualified_to_rust_name@), class@);
    if classes[i].1.has_constructor {
        let mut m = String::new();
        push_text(&mut m, "found duplicate constructor for class `");
        push_text(&mut m, class);
        push_text(&mut m, "`");
        let r = Err(m);
        assert(class_required(
            entries(old(classes)@),
            mid,
            entries_map(entries(old(identifiers)@)),
            entries_map(entries(identifiers@)),
            key,
            i as int,
        ));
        return r;
    }
    let mut entry: (String, ExportedClass) = (String::new(), ExportedClass::new());
    classes.set_and_swap(i, &mut entry);
    let (k, mut c) = entry;
    assert(k@ == key);
    c.has_constructor = true;
    let ts: Option<&str> = match ts_sig {
        Some(t) => Some(t.as_str()),
        None => None,
    };
    c.push("constructor", "", js_docs, code, ts_docs, ts);
    classes.set(i, (k, c));
    proof {
        let c1 = entries(classes@);
        assert(c1 =~= mid.update(i as int, (key, c1[i as int].1)));
        assert(keys_distinct(c1)) by {
            assert forall|a: int, b: int| 0 <= a < b < c1.len() implies (#[trigger] c1[a]).0 != (#[trigger] c1[b]).0 by {
                assert(c1[a].0 == mid[a].0 && c1[b].0 == mid[b].0);
            }
        }
        assert(class_required(
            entries(old(classes)@),
            mid,
            entries_map(entries(old(identifiers)@)),
            entries_map(entries(identifiers@)),
            key,
            i as int,
        ));
    }
    Ok(())
}

/// How an exported method takes its receiver.
#[derive(Debug, Clone, Copy, PartialEq, Eq, Structural)]
pub enum AuxReceiverKind {
    /// It takes none: a static method.
    Static,
    Borrowed,
    Owned,
}

/// What an exported method of a class is.
#[derive(Debug, Clone, Copy, PartialEq, Eq, Structural)]
pub enum AuxExportedMethodKind {
    Method,
    Getter,
    Setter,
}

/// Whether `c2` is `c` with the accessor `a` of the field `loc` recorded
/// for the TypeScript declarations: on the field's entry where it has one,
/// else on a new entry after all others.
pub open spec fn accessor_added(
    c: ExportedClass,
    c2: ExportedClass,
    loc: FieldLocation,
    a: FieldAccessor,
    is_setter: bool,
) -> bool {
    let fs = c.typescript_fields@;
    &&& c2.wf()
    &&& (exists|i: int| 0 <= i < fs.len() && field_is(#[trigger] fs[i], loc.name@, loc.is_static)) ==> {
        let i = choose|i: int| 0 <= i < fs.len() && field_is(#[trigger] fs[i], loc.name@, loc.is_static);
        c2.typescript_fields@ == fs.update(i, with_accessor(fs[i], a, is_setter))
    }
    &&& (forall|i: int| 0 <= i < fs.len() ==> !field_is(#[trigger] fs[i], loc.name@, loc.is_static))
        ==> c2.typescript_fields@ == fs.push(
        with_accessor(
            FieldInfo { name: loc.name, is_static: loc.is_static, order: fs.len() as usize, getter: None, setter: None },
            a,
            is_setter,
        ),
    )
    &&& c2 == (ExportedClass { typescript_fields: c2.typescript_fields, ..c })
}

/// Whether `c2` is `c` with the getter (or, with `is_setter`, setter) of
/// the field `name` recorded for the TypeScript declarations, of type `ty`,
/// documented by `docs`; where TypeScript is not generated nothing is
/// recorded.
pub open spec fn accessor_recorded(
    c: ExportedClass,
    c2: ExportedClass,
    name: Seq<char>,
    is_static: bool,
    ty: Seq<char>,
    docs: Seq<char>,
    is_optional: bool,
    is_setter: bool,
    generate_typescript: bool,
) -> bool {
    if generate_typescript {
        exists|loc: FieldLocation, a: FieldAccessor|
            {
                &&& loc.name@ == name && loc.is_static == is_static
                &&& a.ty@ == ty && a.docs@ == docs && a.is_optional == is_optional
                &&& #[trigger] accessor_added(c, c2, loc, a, is_setter)
            }
    } else {
        c2 == c
    }
}

/// The text before a method's name: `static ` for a static one, then `get `
/// or `set ` for an accessor.
pub open spec fn method_prefix(is_static: bool, kind: AuxExportedMethodKind) -> Seq<char> {
    (if is_static {
        "static "@
    } else {
        Seq::<char>::empty()
    }) + match kind {
        AuxExportedMethodKind::Method => Seq::<char>::empty(),
        AuxExportedMethodKind::Getter => "get "@,
        AuxExportedMethodKind::Setter => "set "@,
    }
}

/// The text, or nothing.
pub open spec fn text_or_empty(o: Option<Seq<char>>) -> Seq<char> {
    match o {
        Some(t) => t,
        None => Seq::<char>::empty(),
    }
}

/// The first text, or nothing.
pub open spec fn first_or_empty(v: Seq<Seq<char>>) -> Seq<char> {
    if v.len() > 0 {
        v[0]
    } else {
        Seq::<char>::empty()
    }
}

/// What a method records on its class before it is added as a member
/// (`c` to `ca`): a getter's field type is its return type, and its field
/// becomes readable; a setter's is the type of its argument.
pub open spec fn method_recorded(
    c: ExportedClass,
    ca: ExportedClass,
    name: Seq<char>,
    is_static: bool,
    kind: AuxExportedMethodKind,
    ts_docs: Seq<char>,
    generate_typescript: bool,
    ret_ty: Option<Seq<char>>,
    arg_tys: Seq<Seq<char>>,
    optional_field: bool,
) -> bool {
    match kind {
        AuxExportedMethodKind::Method => ca == c,
        AuxExportedMethodKind::Getter => exists|cb: ExportedClass|
            {
                &&& #[trigger] accessor_recorded(
                    c,
                    cb,
                    name,
                    is_static,
                    text_or_empty(ret_ty),
                    ts_docs,
                    false,
                    false,
                    generate_typescript,
                )
                &&& texts(ca.readable_properties@) == texts(cb.readable_properties@).push(name)
                &&& ca == (ExportedClass { readable_properties: ca.readable_properties, ..cb })
            },
        AuxExportedMethodKind::Setter => accessor_recorded(
            c,
            ca,
            name,
            is_static,
            first_or_empty(arg_tys),
            ts_docs,
            optional_field,
            true,
            generate_typescript,
        ),
    }
}

/// What placing the method `name` of the class kept under `key` does to
/// the classes (`c0` to `c1`) and the counts of identifiers (`m0` to
/// `m1`): the class is required, the method records what it must (see
/// [`method_recorded`]) and is added as a member; only a plain method
/// declares its own TypeScript signature.
pub open spec fn method_placed(
    c0: Seq<(Seq<char>, ExportedClass)>,
    c1: Seq<(Seq<char>, ExportedClass)>,
    m0: Map<Seq<char>, usize>,
    m1: Map<Seq<char>, usize>,
    key: Seq<char>,
    name: Seq<char>,
    is_static: bool,
    kind: AuxExportedMethodKind,
    js_docs: Seq<char>,
    code: Seq<char>,
    ts_docs: Seq<char>,
    ts_sig: Option<Seq<char>>,
    generate_typescript: bool,
    ret_ty: Option<Seq<char>>,
    arg_tys: Seq<Seq<char>>,
    optional_field: bool,
) -> bool {
    exists|mid: Seq<(Seq<char>, ExportedClass)>, i: int|
        {
            &&& #[trigger] class_required(c0, mid, m0, m1, key, i)
            &&& c1 == mid.update(i, (key, c1[i].1))
            &&& exists|ca: ExportedClass|
                {
                    &&& #[trigger] method_recorded(
                        mid[i].1,
                        ca,
                        name,
                        is_static,
                        kind,
                        ts_docs,
                        generate_typescript,
                        ret_ty,
                        arg_tys,
                        optional_field,
                    )
                    &&& member_pushed(
                        ca,
                        c1[i].1,
                        name,
                        method_prefix(is_static, kind),
                        js_docs,
                        code,
                        ts_docs,
                        if kind == AuxExportedMethodKind::Method {
                            ts_sig
                        } else {
                            None
                        },
                    )
                }
        }
}

/// Places the JavaScript generated for the method `name` of the exported
/// class `class`; see [`method_placed`].
pub fn place_method(
    classes: &mut Vec<(String, ExportedClass)>,
    qualified_to_rust_name: &Vec<(String, String)>,
    identifiers: &mut Vec<(String, usize)>,
    class: &str,
    name: &str,
    receiver: AuxReceiverKind,
    kind: AuxExportedMethodKind,
    js_docs: &str,
    code: &str,
    ts_docs: &str,
    ts_sig: &Option<String>,
    generate_typescript: bool,
    ts_ret_ty: Option<String>,
    ts_arg_tys: &Vec<String>,
    might_be_optional_field: bool,
)
    requires
        keys_distinct(entries(old(classes)@)),
        keys_distinct(entries(qualified_to_rust_name@)),
        keys_distinct(entries(old(identifiers)@)),
        counts_fit(old(identifiers)@),
        classes_wf(entries(old(classes)@)),
        kind == AuxExportedMethodKind::Getter && generate_typescript ==> ts_ret_ty is Some,
        kind == AuxExportedMethodKind::Setter && generate_typescript ==> ts_arg_tys@.len() > 0,
    ensures
        method_placed(
            entries(old(classes)@),
            entries(final(classes)@),
            entries_map(entries(old(identifiers)@)),
            entries_map(entries(final(identifiers)@)),
            class_key(entries(qualified_to_rust_name@), class@),
            name@,
            receiver == AuxReceiverKind::Static,
            kind,
            js_docs@,
            code@,
            ts_docs@,
            opt_text(*ts_sig),
            generate_typescript,
            opt_text(ts_ret_ty),
            texts(ts_arg_tys@),
            might_be_optional_field,
        ),
        keys_distinct(entries(final(classes)@)),
        keys_distinct(entries(final(identifiers)@)),
{
    let ghost rt = opt_text(ts_ret_ty);
    let i = require_class(classes, qualified_to_rust_name, identifiers, class);
    let ghost mid = entries(classes@);
    let ghost key = class_key(entries(qualified_to_rust_name@), class@);
    assert(mid[i as int].1.wf());
    let mut entry: (String, ExportedClass) = (String::new(), ExportedClass::new());
    classes.set_and_swap(i, &mut entry);
    let (k, mut c) = entry;
    let ghost c0 = c;
    let ghost mut cb: ExportedClass = c;
    let is_static = receiver == AuxReceiverKind::Static;
    let mut prefix = String::new();
    if is_static {
        push_text(&mut prefix, "static ");
    }
    let ts: Option<&str> = match kind {
        AuxExportedMethodKind::Method => match ts_sig {
            Some(t) => Some(t.as_str()),
            None => None,
        },
        AuxExportedMethodKind::Getter => {
            push_text(&mut prefix, "get ");
            if generate_typescript {
                let mut n = String::new();
                push_text(&mut n, name);
                let mut docs = String::new();
                push_text(&mut docs, ts_docs);
                let ty = match ts_ret_ty {
                    Some(t) => t,
                    None => String::new(),
                };
                let location = FieldLocation { name: n, is_static };
                let accessor = FieldAccessor { ty, docs, is_optional: false };
                let ghost gl = location;
                let ghost ga = accessor;
                let ghost before = c;
                c.push_accessor_ts(location, accessor, false);
                assert(accessor_added(before, c, gl, ga, false));
            }
            proof {
                cb = c;
                assert(accessor_recorded(
                    c0,
                    cb,
                    name@,
                    is_static,
                    text_or_empty(rt),
                    ts_docs@,
                    false,
                    false,
                    generate_typescript,
                ));
            }
            let mut n = String::new();
            push_text(&mut n, name);
            c.readable_properties.push(n);
            assert(texts(c.readable_properties@) =~= texts(cb.readable_properties@).push(name@));
            None
        },
        AuxExportedMethodKind::Setter => {
            push_text(&mut prefix, "set ");
            if generate_typescript {
                let mut n = String::new();
                push_text(&mut n, name);
                let mut docs = String::new();
                push_text(&mut docs, ts_docs);
                let mut ty = String::new();
                push_text(&mut ty, ts_arg_tys[0].as_str());
                let location = FieldLocation { name: n, is_static };
                let accessor = FieldAccessor { ty, docs, is_optional: might_be_optional_field };
                let ghost gl = location;
                let ghost ga = accessor;
                let ghost before = c;
                c.push_accessor_ts(location, accessor, true);
                assert(accessor_added(before, c, gl, ga, true));
            }
            None
        },
    };
    let ghost ca = c;
    c.push(name, prefix.as_str(), js_docs, code, ts_docs, ts);
    classes.set(i, (k, c));
    proof {
        let c1 = entries(classes@);
        assert(c1 =~= mid.update(i as int, (key, c1[i as int].1)));
        assert(keys_distinct(c1)) by {
            assert forall|a: int, b: int| 0 <= a < b < c1.len() implies (#[trigger] c1[a]).0 != (#[trigger] c1[b]).0 by {
                assert(c1[a].0 == mid[a].0 && c1[b].0 == mid[b].0);
            }
        }
        assert(prefix@ =~= method_prefix(is_static, kind));
        assert(method_recorded(
            c0,
            ca,
            name@,
            is_static,
            kind,
            ts_docs@,
            generate_typescript,
            rt,
            texts(ts_arg_tys@),
            might_be_optional_field,
        ));
        assert(class_required(
            entries(old(classes)@),
            mid,
            entries_map(entries(old(identifiers)@)),
            entries_map(entries(identifiers@)),
            key,
            i as int,
        ));
    }
}

/// The TypeScript docs of an export, kept only where its return value or
/// one of its arguments is described: without a description they add
/// nothing to the signature.
pub fn described_ts_doc(has_ret_desc: bool, arg_descs: &Vec<Option<String>>, ts_doc: String) -> (r: Option<String>)
    ensures
        (has_ret_desc || exists|j: int| 0 <= j < arg_descs@.len() && #[trigger] arg_descs@[j] is Some) ==> (r matches Some(
            t,
        ) && t@ == ts_doc@),
        !(has_ret_desc || exists|j: int| 0 <= j < arg_descs@.len() && #[trigger] arg_descs@[j] is Some) ==> r is None,
{
    let mut described = has_ret_desc;
    let mut i: usize = 0;
    while i < arg_descs.len()
        invariant
            i <= arg_descs@.len(),
            described == (has_ret_desc || exists|j: int| 0 <= j < i && #[trigger] arg_descs@[j] is Some),
        decreases arg_descs@.len() - i,
    {
        if arg_descs[i].is_some() {
            described = true;
        }
        i = i + 1;
    }
    if described {
        Some(ts_doc)
    } else {
        None
    }
}

/// What an export of the Rust side is on the JavaScript side.
pub enum AuxExportKind {
    /// A free function.
    Function(String),
    /// A free function that takes `this`.
    FunctionThis(String),
    /// The constructor of a class.
    Constructor(String),
    /// A method (or accessor) of a class.
    Method { class: String, name: String, receiver: AuxReceiverKind, kind: AuxExportedMethodKind },
}

/// An export of the Rust side, as far as placing its JavaScript reads it.
pub struct AuxExport {
    /// Its doc comments.
    pub comments: String,
    /// The descriptions of its arguments, where they are given.
    pub arg_descs: Option<Vec<Option<String>>>,
    /// The description of its return value.
    pub fn_ret_desc: Option<String>,
    pub js_namespace: Option<Vec<String>>,
    pub generate_typescript: bool,
    pub kind: AuxExportKind,
}

/// What the JavaScript generator made of an adapter.
pub struct JsFunction {
    pub ts_sig: String,
    pub ts_arg_tys: Vec<String>,
    pub ts_ret_ty: Option<String>,
    pub js_doc: String,
    pub ts_doc: String,
    pub code: String,
    pub might_be_optional_field: bool,
    pub catch: bool,
    pub log_error: bool,
}

/// Whether the return value or an argument of the export is described.
pub open spec fn export_described(e: AuxExport) -> bool {
    e.fn_ret_desc is Some || (e.arg_descs matches Some(v) && exists|j: int| 0 <= j < v@.len() && #[trigger] v@[j] is Some)
}

/// The TypeScript docs of the export: kept only where it is described.
pub open spec fn export_ts_doc(e: AuxExport, f: JsFunction) -> Option<Seq<char>> {
    if export_described(e) {
        Some(f.ts_doc@)
    } else {
        None
    }
}

/// The TypeScript signature of the export, where TypeScript is generated.
pub open spec fn export_ts_sig(e: AuxExport, f: JsFunction) -> Option<Seq<char>> {
    if e.generate_typescript {
        Some(f.ts_sig@)
    } else {
        None
    }
}

/// The state that placing an export reads and changes.
pub struct ExportState {
    pub exports: Vec<(String, ExportEntry)>,
    pub classes: Vec<(String, ExportedClass)>,
    pub qualified_to_rust_name: Vec<(String, String)>,
    pub qualified_to_identifier: Vec<(String, String)>,
    pub identifiers: Vec<(String, usize)>,
    pub typescript: String,
}

impl ExportState {
    /// Whether the maps have distinct keys, the classes are well formed and
    /// the counts of identifiers have room to grow.
    pub open spec fn wf(&self) -> bool {
        &&& keys_distinct(entries(self.classes@))
        &&& classes_wf(entries(self.classes@))
        &&& keys_distinct(entries(self.qualified_to_rust_name@))
        &&& keys_distinct(entries(self.qualified_to_identifier@))
        &&& keys_distinct(entries(self.identifiers@))
        &&& counts_fit(self.identifiers@)
    }
}

/// What placing the JavaScript `f` generated for the export `e` does (`s`
/// to `s2`, result `r`): a free function is defined among the exports, a
/// constructor or method goes into its class; see [`function_placed`],
/// [`constructor_placed`] and [`method_placed`].
pub open spec fn export_placed(
    s: ExportState,
    s2: ExportState,
    e: AuxExport,
    f: JsFunction,
    emscripten: bool,
    r: Result<(), String>,
) -> bool {
    let js_docs = spec_format_doc_comments(e.comments@, Some(f.js_doc@));
    let ts_docs = spec_format_doc_comments(e.comments@, export_ts_doc(e, f));
    let m0 = entries_map(entries(s.identifiers@));
    let m1 = entries_map(entries(s2.identifiers@));
    &&& s2.qualified_to_rust_name == s.qualified_to_rust_name
    &&& match e.kind {
        AuxExportKind::Function(name) | AuxExportKind::FunctionThis(name) => {
            &&& s2.classes == s.classes
            &&& function_placed(
                entries(s.qualified_to_identifier@),
                entries(s2.qualified_to_identifier@),
                m0,
                m1,
                s.typescript@,
                s2.typescript@,
                entries_view(s.exports@),
                entries_view(s2.exports@),
                name@,
                e.js_namespace,
                e.comments@,
                f.js_doc@,
                export_ts_doc(e, f),
                export_ts_sig(e, f),
                f.code@,
                emscripten,
                r,
            )
        },
        AuxExportKind::Constructor(class) => {
            &&& s2.exports == s.exports && s2.qualified_to_identifier == s.qualified_to_identifier
            &&& s2.typescript == s.typescript
            &&& constructor_placed(
                entries(s.classes@),
                entries(s2.classes@),
                m0,
                m1,
                class_key(entries(s.qualified_to_rust_name@), class@),
                class@,
                js_docs,
                f.code@,
                ts_docs,
                export_ts_sig(e, f),
                r,
            )
        },
        AuxExportKind::Method { class, name, receiver, kind } => {
            &&& s2.exports == s.exports && s2.qualified_to_identifier == s.qualified_to_identifier
            &&& s2.typescript == s.typescript
            &&& r is Ok
            &&& method_placed(
                entries(s.classes@),
                entries(s2.classes@),
                m0,
                m1,
                class_key(entries(s.qualified_to_rust_name@), class@),
                name@,
                receiver == AuxReceiverKind::Static,
                kind,
                js_docs,
                f.code@,
                ts_docs,
                export_ts_sig(e, f),
                e.generate_typescript,
                opt_text(f.ts_ret_ty),
                texts(f.ts_arg_tys@),
                f.might_be_optional_field,
            )
        },
    }
}

/// Whether the TypeScript of an accessor has the type of its field: a
/// getter's return type, a setter's first argument type.
pub open spec fn accessor_types_given(e: AuxExport, f: JsFunction) -> bool {
    match e.kind {
        AuxExportKind::Method { kind, .. } => e.generate_typescript ==> match kind {
            AuxExportedMethodKind::Getter => f.ts_ret_ty is Some,
            AuxExportedMethodKind::Setter => f.ts_arg_tys@.len() > 0,
            AuxExportedMethodKind::Method => true,
        },
        _ => true,
    }
}

/// Places the JavaScript `f` generated for the export `e`; see
/// [`export_placed`]. An export neither catches nor logs its errors.
pub fn place_export(s: &mut ExportState, e: &AuxExport, f: JsFunction, emscripten: bool) -> (r: Result<(), String>)
    requires
        old(s).wf(),
        !f.catch,
        !f.log_error,
        accessor_types_given(*e, f),
    ensures
        export_placed(*old(s), *final(s), *e, f, emscripten, r),
{
    let ghost f0 = f;
    let ts_sig: Option<String> = if e.generate_typescript {
        Some(f.ts_sig)
    } else {
        None
    };
    let no_descs: Vec<Option<String>> = Vec::new();
    let descs: &Vec<Option<String>> = match &e.arg_descs {
        Some(v) => v,
        None => &no_descs,
    };
    let ts_doc = described_ts_doc(e.fn_ret_desc.is_some(), descs, f.ts_doc);
    proof {
        assert(opt_text(ts_doc) == export_ts_doc(*e, f0));
        assert(opt_text(ts_sig) == export_ts_sig(*e, f0));
    }
    match &e.kind {
        AuxExportKind::Function(name) | AuxExportKind::FunctionThis(name) => place_function_export(
            &mut s.exports,
            &mut s.qualified_to_identifier,
            &mut s.identifiers,
            &mut s.typescript,
            name.as_str(),
            &e.js_namespace,
            e.comments.as_str(),
            f.js_doc,
            ts_doc,
            &ts_sig,
            f.code.as_str(),
            emscripten,
        ),
        AuxExportKind::Constructor(class) => {
            let js_docs = format_doc_comments(e.comments.as_str(), Some(f.js_doc));
            let ts_docs = format_doc_comments(e.comments.as_str(), ts_doc);
            place_constructor(
                &mut s.classes,
                &s.qualified_to_rust_name,
                &mut s.identifiers,
                class.as_str(),
                js_docs.as_str(),
                f.code.as_str(),
                ts_docs.as_str(),
                &ts_sig,
            )
        },
        AuxExportKind::Method { class, name, receiver, kind } => {
            let js_docs = format_doc_comments(e.comments.as_str(), Some(f.js_doc));
            let ts_docs = format_doc_comments(e.comments.as_str(), ts_doc);
            place_method(
                &mut s.classes,
                &s.qualified_to_rust_name,
                &mut s.identifiers,
                class.as_str(),
                name.as_str(),
                *receiver,
                *kind,
                js_docs.as_str(),
                f.code.as_str(),
                ts_docs.as_str(),
                &ts_sig,
                e.generate_typescript,
                f.ts_ret_ty,
                &f.ts_arg_tys,
                f.might_be_optional_field,
            );
            Ok(())
        },
    }
}

} // verus!
