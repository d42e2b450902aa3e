//! The JavaScript with which the generated bindings reach what the Rust
//! side imports: naming each imported JavaScript item once, writing the
//! call, access or construction that each kind of import asks for, and
//! wrapping imported functions by how they fail. With them stand the parts
//! of the finished glue that concern imports: re-exported items, the
//! imported memory, and where the ES module imports go.

use vstd::prelude::*;
use crate::intrinsic::texts;
use crate::js::{counts_fit, generate_identifier_with, generated_identifier, valid_ident_of};
use crate::keyed::{entries, entries_map, find_key, keys_distinct, lemma_entries_map, set_entry};
use crate::intrinsic::{
    intrinsic_arity, intrinsic_parts, invoke_intrinsic, render, Intrinsic, IntrinsicEnv, IntrinsicError, JsHelper,
    OutputMode,
};
use crate::js::{
    define_export, entries_view, property_accessor, property_accessor_text, spec_define_export, ExportDefinition,
    ExportEntry, EntryView, ExportedClass,
};
use crate::js_export::{class_key, class_required, classes_wf, require_class};
use crate::strings::{
    chars_start_with, decimal, find_char, index_of_char, push_char, push_decimal, push_text, string_of, text_is,
    to_chars,
};

verus! {

/// The name of an imported JavaScript item: where it comes from.
#[derive(Debug)]
pub enum JsImportName {
    /// `name` from the ES module `module`.
    Module { module: String, name: String },
    /// `name` from a module of the crate; `module` is the path that the
    /// configuration gives that module.
    LocalModule { module: String, name: String },
    /// `name` from an inline JavaScript snippet; `module` is the path that
    /// the configuration gives the snippet.
    InlineJs { module: String, name: String },
    /// A global that some engines only have under a vendor prefix.
    VendorPrefixed { name: String, prefixes: Vec<String> },
    /// A global.
    Global { name: String },
}

/// An imported JavaScript item: a name, then the fields read off it.
#[derive(Debug)]
pub struct JsImport {
    pub name: JsImportName,
    pub fields: Vec<String>,
}

/// A [`JsImportName`] as plain values.
pub enum NameKey {
    Module(Seq<char>, Seq<char>),
    LocalModule(Seq<char>, Seq<char>),
    InlineJs(Seq<char>, Seq<char>),
    VendorPrefixed(Seq<char>, Seq<Seq<char>>),
    Global(Seq<char>),
}

/// The plain form of an import name.
pub open spec fn name_key(n: JsImportName) -> NameKey {
    match n {
        JsImportName::Module { module, name } => NameKey::Module(module@, name@),
        JsImportName::LocalModule { module, name } => NameKey::LocalModule(module@, name@),
        JsImportName::InlineJs { module, name } => NameKey::InlineJs(module@, name@),
        JsImportName::VendorPrefixed { name, prefixes } => NameKey::VendorPrefixed(name@, texts(prefixes@)),
        JsImportName::Global { name } => NameKey::Global(name@),
    }
}

/// Why an import cannot be written.
#[derive(Debug)]
pub enum ImportError {
    /// The global `name` is imported from two places.
    TwoLocations(String),
    /// A variadic call without arguments.
    VariadicWithoutArguments,
    /// A constructor that is not a plain value.
    InvalidConstructor,
    /// A free function that is not a plain value.
    InvalidFreeFunction,
    /// A structural method call without a receiver.
    NoReceiver,
    /// A linked module that can only be written as a separate file.
    LinkNotEmbedded(String),
    /// An intrinsic that cannot be written.
    Intrinsic(IntrinsicError),
}

/// What naming imports reads and records: the identifiers handed out, the
/// names given to import names so far, the ES module imports (per module,
/// each item with its local name where that differs), and the definitions
/// written after the imports.
pub struct ImportNames {
    pub identifiers: Vec<(String, usize)>,
    pub imported_names: Vec<(JsImportName, String)>,
    pub js_imports: Vec<(String, Vec<(String, Option<String>)>)>,
    pub imports_post: String,
}

impl ImportNames {
    /// Whether the identifiers are counted once each, with room to count on.
    pub open spec fn wf(&self) -> bool {
        keys_distinct(entries(self.identifiers@)) && counts_fit(self.identifiers@)
    }
}

/// The names given so far, as plain values.
pub open spec fn names_view(v: Seq<(JsImportName, String)>) -> Seq<(NameKey, Seq<char>)> {
    v.map_values(|p: (JsImportName, String)| (name_key(p.0), p.1@))
}

/// The name given to `k`, the first entry from `i` on that names it.
pub open spec fn given_name(v: Seq<(NameKey, Seq<char>)>, k: NameKey, i: nat) -> Option<Seq<char>>
    decreases v.len() - i,
{
    if i >= v.len() {
        None
    } else if v[i as int].0 == k {
        Some(v[i as int].1)
    } else {
        given_name(v, k, i + 1)
    }
}

/// An ES import item as plain values.
pub open spec fn item_view(p: (String, Option<String>)) -> (Seq<char>, Option<Seq<char>>) {
    (
        p.0@,
        match p.1 {
            Some(s) => Some(s@),
            None => None,
        },
    )
}

/// The items imported from one module, as plain values.
pub open spec fn items_view(v: Seq<(String, Option<String>)>) -> Seq<(Seq<char>, Option<Seq<char>>)> {
    v.map_values(|q: (String, Option<String>)| item_view(q))
}

/// The ES module imports as plain values.
pub open spec fn imports_view(v: Seq<(String, Vec<(String, Option<String>)>)>) -> Seq<
    (Seq<char>, Seq<(Seq<char>, Option<Seq<char>>)>),
> {
    v.map_values(|p: (String, Vec<(String, Option<String>)>)| (p.0@, items_view(p.1@)))
}

/// The first entry from `i` on for the module `m`.
pub open spec fn module_entry(v: Seq<(Seq<char>, Seq<(Seq<char>, Option<Seq<char>>)>)>, m: Seq<char>, i: nat) -> Option<
    nat,
>
    decreases v.len() - i,
{
    if i >= v.len() {
        None
    } else if v[i as int].0 == m {
        Some(i)
    } else {
        module_entry(v, m, i + 1)
    }
}

/// Whether `new` is `old` with `item` imported from the module `m`: added
/// to the module's entry, or to a new entry for it at the end.
pub open spec fn module_import_added(
    old: Seq<(Seq<char>, Seq<(Seq<char>, Option<Seq<char>>)>)>,
    new: Seq<(Seq<char>, Seq<(Seq<char>, Option<Seq<char>>)>)>,
    m: Seq<char>,
    item: (Seq<char>, Option<Seq<char>>),
) -> bool {
    match module_entry(old, m, 0) {
        Some(i) => new == old.update(i as int, (m, old[i as int].1.push(item))),
        None => new == old.push((m, seq![item])),
    }
}

/// The expression that picks the first of `prefix + name` and the
/// prefixed forms in `left` that is defined, else `undefined`.
pub open spec fn vendor_switch(name: Seq<char>, prefix: Seq<char>, left: Seq<Seq<char>>) -> Seq<char>
    decreases left.len(),
{
    "(typeof "@ + prefix + name + " !== 'undefined' ? "@ + prefix + name + " : "@ + (if left.len() == 0 {
        "undefined"@
    } else {
        vendor_switch(name, left[0], left.drop_first())
    }) + ")"@
}

/// A name with the fields `fs` read off it in turn.
pub open spec fn with_fields(n: Seq<char>, fs: Seq<Seq<char>>) -> Seq<char>
    decreases fs.len(),
{
    if fs.len() == 0 {
        n
    } else {
        with_fields(n, fs.drop_last()) + "."@ + fs.last()
    }
}

/// The module and name of an import from a module.
pub open spec fn module_and_name(k: NameKey) -> (Seq<char>, Seq<char>) {
    match k {
        NameKey::Module(module, name) => (module, name),
        NameKey::LocalModule(module, name) => (module, name),
        NameKey::InlineJs(module, name) => (module, name),
        _ => (seq![], seq![]),
    }
}

/// Whether `s2` is `s` with the name `u` given to `k`.
pub open spec fn name_recorded(s: ImportNames, s2: ImportNames, k: NameKey, u: Seq<char>) -> bool {
    names_view(s2.imported_names@) == names_view(s.imported_names@).push((k, u))
}

/// What naming the import `imp` does (`s` to `s2`, with result `r`); see
/// [`name_given`].
pub open spec fn import_named(s: ImportNames, s2: ImportNames, imp: JsImport, r: Result<String, ImportError>) -> bool {
    name_given(s, s2, name_key(imp.name), texts(imp.fields@), r)
}

/// What naming the import name `k` with the fields `fields` does (`s` to
/// `s2`, with result `r`): a name given before is reused; else a global is
/// counted (and may be imported from one place only), a vendor-prefixed
/// global gets a definition that picks the form the engine has, and an
/// item of a module gets a fresh identifier under which it is imported.
/// The fields follow the name.
pub open spec fn name_given(
    s: ImportNames,
    s2: ImportNames,
    k: NameKey,
    fields: Seq<Seq<char>>,
    r: Result<String, ImportError>,
) -> bool {
    match given_name(names_view(s.imported_names@), k, 0) {
        Some(n) => s2 == s && (r matches Ok(x) && x@ == with_fields(n, fields)),
        None => match k {
            NameKey::Global(name) => {
                let m = entries_map(entries(s.identifiers@));
                let c = (if m.contains_key(name) {
                    m[name] as nat
                } else {
                    0
                }) + 1;
                &&& entries_map(entries(s2.identifiers@)) == m.insert(name, c as usize)
                &&& s2.js_imports == s.js_imports
                &&& s2.imports_post == s.imports_post
                &&& if c > 1 {
                    s2.imported_names == s.imported_names && (r matches Err(ImportError::TwoLocations(g)) && g@
                        == name)
                } else {
                    name_recorded(s, s2, k, name) && (r matches Ok(x) && x@ == with_fields(name, fields))
                }
            },
            NameKey::VendorPrefixed(name, prefixes) => {
                let u = "l"@ + name;
                &&& s2.imports_post@ == s.imports_post@ + "const l"@ + name + " = "@ + vendor_switch(
                    name,
                    seq![],
                    prefixes,
                ) + ";\n"@
                &&& s2.identifiers == s.identifiers
                &&& s2.js_imports == s.js_imports
                &&& name_recorded(s, s2, k, u)
                &&& r matches Ok(x) && x@ == with_fields(u, fields)
            },
            _ => {
                let (module, name) = module_and_name(k);
                module_item_named(s, s2, k, module, name, fields, r)
            },
        },
    }
}

/// Whether `s2` is `s` with the item `name` of the module `module`
/// imported under a fresh identifier, which `r` reads the fields `fields`
/// off.
pub open spec fn module_item_named(
    s: ImportNames,
    s2: ImportNames,
    k: NameKey,
    module: Seq<char>,
    name: Seq<char>,
    fields: Seq<Seq<char>>,
    r: Result<String, ImportError>,
) -> bool {
    exists|u: Seq<char>|
        {
            &&& #[trigger] generated_identifier(
                entries_map(entries(s.identifiers@)),
                valid_ident_of(name),
                u,
                entries_map(entries(s2.identifiers@)),
            )
            &&& module_import_added(
                imports_view(s.js_imports@),
                imports_view(s2.js_imports@),
                module,
                (
                    name,
                    if name == u {
                        None
                    } else {
                        Some(u)
                    },
                ),
            )
            &&& s2.imports_post == s.imports_post
            &&& name_recorded(s, s2, k, u)
            &&& r matches Ok(x) && x@ == with_fields(u, fields)
        }
}

fn copy_string(s: &String) -> (r: String)
    ensures
        r@ == s@,
{
    s.clone()
}

fn copy_strings(v: &Vec<String>) -> (r: Vec<String>)
    ensures
        texts(r@) == texts(v@),
{
    let mut out: Vec<String> = Vec::new();
    let mut i: usize = 0;
    while i < v.len()
        invariant
            i <= v@.len(),
            out@.len() == i,
            forall|k: int| 0 <= k < i ==> (#[trigger] out@[k])@ == v@[k]@,
        decreases v@.len() - i,
    {
        let c = copy_string(&v[i]);
        out.push(c);
        i = i + 1;
    }
    assert(texts(out@) =~= texts(v@));
    out
}

fn copy_name(n: &JsImportName) -> (r: JsImportName)
    ensures
        name_key(r) == name_key(*n),
{
    match n {
        JsImportName::Module { module, name } => JsImportName::Module {
            module: copy_string(module),
            name: copy_string(name),
        },
        JsImportName::LocalModule { module, name } => JsImportName::LocalModule {
            module: copy_string(module),
            name: copy_string(name),
        },
        JsImportName::InlineJs { module, name } => JsImportName::InlineJs {
            module: copy_string(module),
            name: copy_string(name),
        },
        JsImportName::VendorPrefixed { name, prefixes } => JsImportName::VendorPrefixed {
            name: copy_string(name),
            prefixes: copy_strings(prefixes),
        },
        JsImportName::Global { name } => JsImportName::Global { name: copy_string(name) },
    }
}

fn same_texts(a: &Vec<String>, b: &Vec<String>) -> (r: bool)
    ensures
        r == (texts(a@) == texts(b@)),
{
    if a.len() != b.len() {
        assert(texts(a@).len() != texts(b@).len());
        return false;
    }
    let mut i: usize = 0;
    while i < a.len()
        invariant
            a@.len() == b@.len(),
            i <= a@.len(),
            forall|k: int| 0 <= k < i ==> a@[k]@ == b@[k]@,
        decreases a@.len() - i,
    {
        if !text_is(a[i].as_str(), b[i].as_str()) {
            assert(texts(a@)[i as int] != texts(b@)[i as int]);
            return false;
        }
        i = i + 1;
    }
    assert(texts(a@) =~= texts(b@));
    true
}

fn same_key(a: &JsImportName, b: &JsImportName) -> (r: bool)
    ensures
        r == (name_key(*a) == name_key(*b)),
{
    match (a, b) {
        (JsImportName::Module { module: m1, name: n1 }, JsImportName::Module { module: m2, name: n2 }) => text_is(
            m1.as_str(),
            m2.as_str(),
        ) && text_is(n1.as_str(), n2.as_str()),
        (
            JsImportName::LocalModule { module: m1, name: n1 },
            JsImportName::LocalModule { module: m2, name: n2 },
        ) => text_is(m1.as_str(), m2.as_str()) && text_is(n1.as_str(), n2.as_str()),
        (JsImportName::InlineJs { module: m1, name: n1 }, JsImportName::InlineJs { module: m2, name: n2 }) => text_is(
            m1.as_str(),
            m2.as_str(),
        ) && text_is(n1.as_str(), n2.as_str()),
        (
            JsImportName::VendorPrefixed { name: n1, prefixes: p1 },
            JsImportName::VendorPrefixed { name: n2, prefixes: p2 },
        ) => text_is(n1.as_str(), n2.as_str()) && same_texts(p1, p2),
        (JsImportName::Global { name: n1 }, JsImportName::Global { name: n2 }) => text_is(n1.as_str(), n2.as_str()),
        _ => false,
    }
}

fn find_given(v: &Vec<(JsImportName, String)>, n: &JsImportName) -> (r: Option<String>)
    ensures
        match given_name(names_view(v@), name_key(*n), 0) {
            Some(x) => r matches Some(y) && y@ == x,
            None => r is None,
        },
{
    let mut i: usize = 0;
    while i < v.len()
        invariant
            i <= v@.len(),
            given_name(names_view(v@), name_key(*n), 0) == given_name(names_view(v@), name_key(*n), i as nat),
        decreases v@.len() - i,
    {
        if same_key(&v[i].0, n) {
            return Some(copy_string(&v[i].1));
        }
        i = i + 1;
    }
    None
}

fn push_fields(out: &mut String, fields: &Vec<String>)
    ensures
        final(out)@ == with_fields(old(out)@, texts(fields@)),
{
    let mut i: usize = 0;
    while i < fields.len()
        invariant
            i <= fields@.len(),
            out@ == with_fields(old(out)@, texts(fields@).take(i as int)),
        decreases fields@.len() - i,
    {
        push_text(out, ".");
        push_text(out, fields[i].as_str());
        i = i + 1;
        assert(texts(fields@).take(i as int).drop_last() =~= texts(fields@).take(i as int - 1));
    }
    assert(texts(fields@).take(fields@.len() as int) =~= texts(fields@));
}

fn push_switch(dst: &mut String, name: &str, prefix: &str, left: &Vec<String>, k: usize)
    requires
        k <= left@.len(),
    ensures
        final(dst)@ == old(dst)@ + vendor_switch(name@, prefix@, texts(left@).subrange(k as int, left@.len() as int)),
    decreases left@.len() - k,
{
    let ghost rest = texts(left@).subrange(k as int, left@.len() as int);
    push_text(dst, "(typeof ");
    push_text(dst, prefix);
    push_text(dst, name);
    push_text(dst, " !== 'undefined' ? ");
    push_text(dst, prefix);
    push_text(dst, name);
    push_text(dst, " : ");
    let ghost mid = dst@;
    if k == left.len() {
        push_text(dst, "undefined");
    } else {
        push_switch(dst, name, left[k].as_str(), left, k + 1);
        assert(rest.drop_first() =~= texts(left@).subrange(k as int + 1, left@.len() as int));
    }
    push_text(dst, ")");
    assert(dst@ =~= old(dst)@ + vendor_switch(name@, prefix@, rest));
}

/// Adds `item` (`name`, under the local name `unique`) to the imports of
/// `module`.
fn add_module_import(v: &mut Vec<(String, Vec<(String, Option<String>)>)>, module: &String, name: &String, unique: &String)
    ensures
        module_import_added(
            imports_view(old(v)@),
            imports_view(final(v)@),
            module@,
            (
                name@,
                if name@ == unique@ {
                    None
                } else {
                    Some(unique@)
                },
            ),
        ),
{
    let rename = if text_is(name.as_str(), unique.as_str()) {
        None
    } else {
        Some(copy_string(unique))
    };
    let item = (copy_string(name), rename);
    let ghost iv = item_view(item);
    assert(iv == (
        name@,
        if name@ == unique@ {
            None
        } else {
            Some(unique@)
        },
    ));
    let ghost old_view = imports_view(v@);
    let mut i: usize = 0;
    while i < v.len()
        invariant
            i <= v@.len(),
            *v == *old(v),
            iv == item_view(item),
            iv == (name@, if name@ == unique@ { None } else { Some(unique@) }),
            old_view == imports_view(old(v)@),
            module_entry(imports_view(v@), module@, 0) == module_entry(imports_view(v@), module@, i as nat),
        decreases v@.len() - i,
    {
        if text_is(v[i].0.as_str(), module.as_str()) {
            assert(imports_view(v@)[i as int].0 == module@);
            assert(module_entry(old_view, module@, 0) == Some(i as nat));
            let mut entry: (String, Vec<(String, Option<String>)>) = (String::new(), Vec::new());
            v.set_and_swap(i, &mut entry);
            let (m, mut items) = entry;
            let ghost old_items = items@;
            items.push(item);
            assert(items_view(items@) =~= items_view(old_items).push(iv));
            v.set(i, (m, items));
            assert(imports_view(v@) =~= old_view.update(
                i as int,
                (module@, old_view[i as int].1.push(iv)),
            ));
            return;
        }
        i = i + 1;
    }
    let mut items: Vec<(String, Option<String>)> = Vec::new();
    items.push(item);
    assert(items_view(items@) =~= seq![iv]);
    v.push((copy_string(module), items));
    assert(imports_view(v@) =~= old_view.push((module@, seq![iv])));
}

impl ImportNames {
    /// The JavaScript name under which the import `imp` is reached, naming
    /// it first where it has no name yet; see [`import_named`].
    pub fn import_name(&mut self, imp: &JsImport) -> (r: Result<String, ImportError>)
        requires
            old(self).wf(),
        ensures
            import_named(*old(self), *final(self), *imp, r),
            keys_distinct(entries(final(self).identifiers@)),
    {
        if let Some(n) = find_given(&self.imported_names, &imp.name) {
            let mut out = n;
            push_fields(&mut out, &imp.fields);
            return Ok(out);
        }
        let ghost s0 = *self;
        let key = copy_name(&imp.name);
        let base: String = match &imp.name {
            JsImportName::Module { module, name } | JsImportName::LocalModule { module, name }
            | JsImportName::InlineJs { module, name } => {
                let u = generate_identifier_with(&mut self.identifiers, name.as_str());
                add_module_import(&mut self.js_imports, module, name, &u);
                u
            },
            JsImportName::VendorPrefixed { name, prefixes } => {
                let ghost p0 = self.imports_post@;
                push_text(&mut self.imports_post, "const l");
                push_text(&mut self.imports_post, name.as_str());
                push_text(&mut self.imports_post, " = ");
                push_switch(&mut self.imports_post, name.as_str(), "", prefixes, 0);
                push_text(&mut self.imports_post, ";\n");
                proof {
                    assert(texts(prefixes@).subrange(0, prefixes@.len() as int) =~= texts(prefixes@));
                    reveal_strlit("");
                    assert(""@ =~= Seq::<char>::empty());
                    assert(self.imports_post@ =~= p0 + "const l"@ + name@ + " = "@ + vendor_switch(
                        name@,
                        seq![],
                        texts(prefixes@),
                    ) + ";\n"@);
                }
                let mut u = String::new();
                push_text(&mut u, "l");
                push_text(&mut u, name.as_str());
                u
            },
            JsImportName::Global { name } => {
                let ghost m = entries_map(entries(self.identifiers@));
                proof {
                    lemma_entries_map(entries(self.identifiers@), name@);
                }
                let c: usize = match find_key(&self.identifiers, name.as_str()) {
                    Some(i) => {
                        assert(entries(self.identifiers@)[i as int].0 == name@);
                        assert(m[name@] + self.identifiers@.len() < usize::MAX);
                        self.identifiers[i].1 + 1
                    },
                    None => 1,
                };
                set_entry(&mut self.identifiers, copy_string(name), c);
                if c > 1 {
                    return Err(ImportError::TwoLocations(copy_string(name)));
                }
                copy_string(name)
            },
        };
        let ghost u = base@;
        self.imported_names.push((key, copy_string(&base)));
        assert(names_view(self.imported_names@) =~= names_view(s0.imported_names@).push((name_key(imp.name), u)));
        let mut out = base;
        push_fields(&mut out, &imp.fields);
        let r = Ok(out);
        proof {
            let nm = imp.name;
            match nm {
                JsImportName::Module { module, name } | JsImportName::LocalModule { module, name }
                | JsImportName::InlineJs { module, name } => {
                    assert(generated_identifier(
                        entries_map(entries(s0.identifiers@)),
                        valid_ident_of(name@),
                        u,
                        entries_map(entries(self.identifiers@)),
                    ));
                    assert(module_item_named(s0, *self, name_key(imp.name), module@, name@, texts(imp.fields@), r));
                },
                _ => {},
            }
        }
        r
    }
}

/// A value imported from JavaScript, and how it is reached.
#[derive(Debug)]
pub enum AuxValue {
    /// The value itself.
    Bare(JsImport),
    /// The getter of an instance property of a class.
    Getter(JsImport, String),
    /// The getter of a static property of a class.
    ClassGetter(JsImport, String),
    /// The setter of an instance property of a class.
    Setter(JsImport, String),
    /// The setter of a static property of a class.
    ClassSetter(JsImport, String),
}

/// What an imported function stands for on the JavaScript side.
#[derive(Debug)]
pub enum AuxImport {
    /// A value, called as the adapter's kind says.
    Value(AuxValue),
    /// A method of a class, called on the class.
    ValueWithThis(JsImport, String),
    /// An `instanceof` check of the argument.
    Instanceof(JsImport),
    /// A static value, read and not called; `optional` values may be
    /// missing.
    Static { js: JsImport, optional: bool },
    /// A string constant.
    String(String),
    /// A cast, which passes its argument on.
    Cast { sig_comment: String },
    /// A method called on the first argument.
    StructuralMethod(String),
    /// A property read off the argument.
    StructuralGetter(String),
    /// A static property read off a class.
    StructuralClassGetter(JsImport, String),
    /// A property of the first argument set to the second.
    StructuralSetter(String),
    /// A static property of a class set to the argument.
    StructuralClassSetter(JsImport, String),
    /// A class indexed by the argument.
    IndexingGetterOfClass(JsImport),
    /// The first argument indexed by the second.
    IndexingGetterOfObject,
    /// A class indexed by the first argument, set to the second.
    IndexingSetterOfClass(JsImport),
    /// The first argument indexed by the second, set to the third.
    IndexingSetterOfObject,
    /// An index of a class deleted.
    IndexingDeleterOfClass(JsImport),
    /// An index of the first argument deleted.
    IndexingDeleterOfObject,
    /// A pointer wrapped in an instance of an exported class.
    WrapInExportedClass(String),
    /// A wasm-bindgen intrinsic.
    Intrinsic(Intrinsic),
    /// The URL of a linked module, with its content where it is inline.
    LinkTo(String, Option<String>),
    /// The pointer taken out of an instance of an exported class.
    UnwrapExportedClass(String),
}

/// How an adapter calls the value it imports.
#[derive(Debug, Clone, Copy, PartialEq, Eq, Structural)]
pub enum AdapterJsImportKind {
    /// With `new`.
    Constructor,
    /// With the first argument as `this`.
    Method,
    /// As a plain function.
    Normal,
}

/// What writing an import reads of the configuration.
pub struct ImportEnv {
    pub intrinsics: IntrinsicEnv,
    /// Whether the Node output is an ES module.
    pub node_module: bool,
    /// Whether linked modules are written as files of their own.
    pub split_linked_modules: bool,
}

/// The JavaScript for an import, with what it needs defined elsewhere.
#[derive(Debug)]
pub struct ImportJs {
    pub expr: String,
    /// A helper of an intrinsic.
    pub helper: Option<JsHelper>,
    /// Whether `GetOwnOrInheritedPropertyDescriptor` is used.
    pub inherited_descriptor: bool,
}

/// The texts joined with `", "`.
pub open spec fn comma_joined(a: Seq<Seq<char>>) -> Seq<char>
    decreases a.len(),
{
    if a.len() == 0 {
        seq![]
    } else if a.len() == 1 {
        a[0]
    } else {
        comma_joined(a.drop_last()) + ", "@ + a.last()
    }
}

/// The arguments of a call: joined, the last one spread where the call is
/// variadic; `None` for a variadic call without arguments.
pub open spec fn call_args(a: Seq<Seq<char>>, variadic: bool) -> Option<Seq<char>> {
    if !variadic {
        Some(comma_joined(a))
    } else if a.len() == 0 {
        None
    } else if a.len() == 1 {
        Some("..."@ + a[0])
    } else {
        Some(comma_joined(a.drop_last()) + ", ..."@ + a.last())
    }
}

/// `s` as the body of a template literal: `` ` ``, `\\` and `$` escaped
/// with a backslash.
pub open spec fn template_escaped(s: Seq<char>) -> Seq<char>
    decreases s.len(),
{
    if s.len() == 0 {
        seq![]
    } else {
        template_escaped(s.drop_last()) + if s.last() == '`' || s.last() == '\\' || s.last() == '$' {
            seq!['\\', s.last()]
        } else {
            seq![s.last()]
        }
    }
}

/// A name with the fields `fs` read off it where it is defined.
pub open spec fn with_optional_fields(n: Seq<char>, fs: Seq<Seq<char>>) -> Seq<char>
    decreases fs.len(),
{
    if fs.len() == 0 {
        n
    } else {
        with_optional_fields(n, fs.drop_last()) + "?."@ + fs.last()
    }
}

/// A static value named `n` with the fields `fs`; where it is optional,
/// `null` if it is not defined.
pub open spec fn static_text(n: Seq<char>, fs: Seq<Seq<char>>, optional: bool) -> Seq<char> {
    if optional {
        with_optional_fields("typeof "@ + n + " === 'undefined' ? null : "@ + n, fs)
    } else {
        with_fields(n, fs)
    }
}

/// The accessor `which` of the property `field` of `anchor + extra`, found
/// on it or along its prototype chain.
pub open spec fn descriptor_text(anchor: Seq<char>, extra: Seq<char>, field: Seq<char>, which: Seq<char>) -> Seq<char> {
    "GetOwnOrInheritedPropertyDescriptor("@ + anchor + extra + ", '"@ + field + "')."@ + which
}

/// The code that sets `result` to whether `arg` is an instance of `class`.
pub open spec fn instanceof_prelude(arg: Seq<char>, class: Seq<char>) -> Seq<char> {
    "let result;\n                    try {\n                        result = "@ + arg + " instanceof "@ + class
        + ";\n                    } catch (_) {\n                        result = false;\n                    }\n                    "@
}

/// Whether a call with `n` arguments is plain: a normal call, not variadic,
/// with `k` arguments.
pub open spec fn plain_call(kind: AdapterJsImportKind, variadic: bool, n: nat, k: nat) -> bool {
    kind == AdapterJsImportKind::Normal && !variadic && n == k
}

/// Whether an adapter of kind `kind` can call the import `i` with `n`
/// arguments: anything but a value, a method of a class or a structural
/// method is called plainly with as many arguments as it takes.
pub open spec fn import_call_ok(i: AuxImport, kind: AdapterJsImportKind, n: nat, variadic: bool) -> bool {
    match i {
        AuxImport::Value(_) => true,
        AuxImport::ValueWithThis(..) => true,
        AuxImport::StructuralMethod(_) => kind == AdapterJsImportKind::Normal,
        AuxImport::Instanceof(_) => plain_call(kind, variadic, n, 1),
        AuxImport::Static { .. } => plain_call(kind, variadic, n, 0),
        AuxImport::String(_) => plain_call(kind, variadic, n, 0),
        AuxImport::Cast { .. } => plain_call(kind, variadic, n, 1),
        AuxImport::StructuralGetter(_) => plain_call(kind, variadic, n, 1),
        AuxImport::StructuralClassGetter(..) => plain_call(kind, variadic, n, 0),
        AuxImport::StructuralSetter(_) => plain_call(kind, variadic, n, 2),
        AuxImport::StructuralClassSetter(..) => plain_call(kind, variadic, n, 1),
        AuxImport::IndexingGetterOfClass(_) => plain_call(kind, variadic, n, 1),
        AuxImport::IndexingGetterOfObject => plain_call(kind, variadic, n, 2),
        AuxImport::IndexingSetterOfClass(_) => plain_call(kind, variadic, n, 2),
        AuxImport::IndexingSetterOfObject => plain_call(kind, variadic, n, 3),
        AuxImport::IndexingDeleterOfClass(_) => plain_call(kind, variadic, n, 1),
        AuxImport::IndexingDeleterOfObject => plain_call(kind, variadic, n, 2),
        AuxImport::WrapInExportedClass(_) => plain_call(kind, variadic, n, 1),
        AuxImport::UnwrapExportedClass(_) => plain_call(kind, variadic, n, 1),
        AuxImport::LinkTo(..) => plain_call(kind, variadic, n, 0),
        AuxImport::Intrinsic(x) => kind == AdapterJsImportKind::Normal && !variadic && (intrinsic_arity(x) matches Some(
            m,
        ) ==> n == m),
    }
}

/// An import name with its fields, as plain values.
pub open spec fn target_of(js: JsImport) -> (NameKey, Seq<Seq<char>>) {
    (name_key(js.name), texts(js.fields@))
}

/// The JavaScript item that writing `i` for an adapter of kind `kind`
/// names, if any: a static value is named without its fields, which are
/// read off afterwards.
pub open spec fn import_target(i: AuxImport, kind: AdapterJsImportKind) -> Option<(NameKey, Seq<Seq<char>>)> {
    match i {
        AuxImport::Value(v) => match v {
            AuxValue::Bare(js) => Some(target_of(js)),
            AuxValue::Getter(c, _) => if kind == AdapterJsImportKind::Method { Some(target_of(c)) } else { None },
            AuxValue::ClassGetter(c, _) => if kind == AdapterJsImportKind::Method { Some(target_of(c)) } else { None },
            AuxValue::Setter(c, _) => if kind == AdapterJsImportKind::Method { Some(target_of(c)) } else { None },
            AuxValue::ClassSetter(c, _) => if kind == AdapterJsImportKind::Method { Some(target_of(c)) } else { None },
        },
        AuxImport::ValueWithThis(c, _) => Some(target_of(c)),
        AuxImport::Instanceof(js) => Some(target_of(js)),
        AuxImport::Static { js, optional } => Some((name_key(js.name), seq![])),
        AuxImport::StructuralClassGetter(c, _) => Some(target_of(c)),
        AuxImport::StructuralClassSetter(c, _) => Some(target_of(c)),
        AuxImport::IndexingGetterOfClass(c) => Some(target_of(c)),
        AuxImport::IndexingSetterOfClass(c) => Some(target_of(c)),
        AuxImport::IndexingDeleterOfClass(c) => Some(target_of(c)),
        _ => None,
    }
}

/// `prefix` called with the arguments `a`, if they can be written.
pub open spec fn called(prefix: Seq<char>, a: Seq<Seq<char>>, variadic: bool) -> Option<Seq<char>> {
    match call_args(a, variadic) {
        Some(c) => Some(prefix + "("@ + c + ")"@),
        None => None,
    }
}

/// The expression for `i`, once the item it names is named `n`; `None`
/// where a variadic call has no arguments.
pub open spec fn named_expr(
    i: AuxImport,
    kind: AdapterJsImportKind,
    n: Seq<char>,
    a: Seq<Seq<char>>,
    variadic: bool,
) -> Option<Seq<char>> {
    match i {
        AuxImport::Value(v) => match kind {
            AdapterJsImportKind::Constructor => called("new "@ + n, a, variadic),
            AdapterJsImportKind::Normal => called(n, a, variadic),
            AdapterJsImportKind::Method => {
                let js = match v {
                    AuxValue::Bare(_) => n,
                    AuxValue::Getter(_, f) => descriptor_text(n, ".prototype"@, f@, "get"@),
                    AuxValue::ClassGetter(_, f) => descriptor_text(n, seq![], f@, "get"@),
                    AuxValue::Setter(_, f) => descriptor_text(n, ".prototype"@, f@, "set"@),
                    AuxValue::ClassSetter(_, f) => descriptor_text(n, seq![], f@, "set"@),
                };
                called(js + ".call"@, a, variadic)
            },
        },
        AuxImport::ValueWithThis(_, name) => called(n + property_accessor_text(name@), a, variadic),
        AuxImport::Instanceof(_) => Some("result"@),
        AuxImport::Static { js, optional } => Some(static_text(n, texts(js.fields@), optional)),
        AuxImport::StructuralClassGetter(_, f) => Some(n + property_accessor_text(f@)),
        AuxImport::StructuralClassSetter(_, f) => Some(n + property_accessor_text(f@) + " = "@ + a[0]),
        AuxImport::IndexingGetterOfClass(_) => Some(n + "["@ + a[0] + "]"@),
        AuxImport::IndexingSetterOfClass(_) => Some(n + "["@ + a[0] + "] = "@ + a[1]),
        AuxImport::IndexingDeleterOfClass(_) => Some("delete "@ + n + "["@ + a[0] + "]"@),
        _ => None,
    }
}

/// What the expression for `i` needs written before it, once the item it
/// names is named `n`.
pub open spec fn named_prelude(i: AuxImport, n: Seq<char>, a: Seq<Seq<char>>) -> Seq<char> {
    match i {
        AuxImport::Instanceof(_) => instanceof_prelude(a[0], n),
        _ => seq![],
    }
}

/// Whether the expression for `i` reads a property's accessor through
/// `GetOwnOrInheritedPropertyDescriptor`.
pub open spec fn descriptor_needed(i: AuxImport, kind: AdapterJsImportKind) -> bool {
    kind == AdapterJsImportKind::Method && (i matches AuxImport::Value(v) && !(v is Bare))
}

/// Whether `r` is the expression `x`, with nothing else needed.
pub open spec fn plain_ok(r: Result<ImportJs, ImportError>, x: Seq<char>) -> bool {
    r matches Ok(j) && j.expr@ == x && j.helper is None && !j.inherited_descriptor
}

/// Appends the texts of `args` from `start` to `end`, joined with `", "`.
fn push_joined(out: &mut String, args: &Vec<String>, start: usize, end: usize)
    requires
        start <= end <= args@.len(),
    ensures
        final(out)@ == old(out)@ + comma_joined(texts(args@).subrange(start as int, end as int)),
{
    let ghost a = texts(args@);
    let mut i: usize = start;
    while i < end
        invariant
            start <= i <= end <= args@.len(),
            a == texts(args@),
            out@ == old(out)@ + comma_joined(a.subrange(start as int, i as int)),
        decreases end - i,
    {
        if i > start {
            push_text(out, ", ");
        }
        push_text(out, args[i].as_str());
        proof {
            let t = a.subrange(start as int, i as int + 1);
            assert(t.drop_last() =~= a.subrange(start as int, i as int));
            if i == start {
                assert(a.subrange(start as int, i as int) =~= Seq::<Seq<char>>::empty());
                reveal_strlit(", ");
            }
        }
        i = i + 1;
    }
}

/// Appends the arguments of a call, as [`call_args`] writes them, of the
/// arguments from `start` on; returns whether they can be written.
fn push_call_args(out: &mut String, args: &Vec<String>, start: usize, variadic: bool) -> (ok: bool)
    requires
        start <= args@.len(),
    ensures
        ok == (call_args(texts(args@).skip(start as int), variadic) is Some),
        ok ==> final(out)@ == old(out)@ + call_args(texts(args@).skip(start as int), variadic)->Some_0,
{
    let ghost a = texts(args@).skip(start as int);
    let n = args.len();
    if !variadic {
        push_joined(out, args, start, n);
        assert(texts(args@).subrange(start as int, n as int) =~= a);
        return true;
    }
    if start == n {
        return false;
    }
    push_joined(out, args, start, n - 1);
    if n - 1 > start {
        push_text(out, ", ...");
        proof {
            assert(texts(args@).subrange(start as int, n - 1) =~= a.drop_last());
        }
    } else {
        push_text(out, "...");
        proof {
            reveal_strlit("...");
            assert(texts(args@).subrange(start as int, n - 1) =~= Seq::<Seq<char>>::empty());
        }
    }
    push_text(out, args[n - 1].as_str());
    true
}

/// Appends `s` as the body of a template literal.
fn push_template_escaped(out: &mut String, s: &str)
    ensures
        final(out)@ == old(out)@ + template_escaped(s@),
{
    let cs = to_chars(s);
    let mut i: usize = 0;
    while i < cs.len()
        invariant
            i <= cs@.len(),
            cs@ == s@,
            out@ == old(out)@ + template_escaped(cs@.take(i as int)),
        decreases cs@.len() - i,
    {
        let c = cs[i];
        if c == '`' || c == '\\' || c == '$' {
            push_char(out, '\\');
        }
        push_char(out, c);
        proof {
            assert(cs@.take(i as int + 1).drop_last() =~= cs@.take(i as int));
        }
        i = i + 1;
    }
    assert(cs@.take(cs@.len() as int) =~= s@);
}

fn copy_import(js: &JsImport) -> (r: JsImport)
    ensures
        target_of(r) == target_of(*js),
{
    JsImport { name: copy_name(&js.name), fields: copy_strings(&js.fields) }
}

/// The item that writing `import` names, as [`import_target`] says.
fn target_import(import: &AuxImport, kind: AdapterJsImportKind) -> (r: Option<JsImport>)
    ensures
        match import_target(*import, kind) {
            Some(t) => r matches Some(j) && target_of(j) == t,
            None => r is None,
        },
{
    let is_method = kind == AdapterJsImportKind::Method;
    match import {
        AuxImport::Value(v) => match v {
            AuxValue::Bare(js) => Some(copy_import(js)),
            AuxValue::Getter(c, _) | AuxValue::ClassGetter(c, _) | AuxValue::Setter(c, _) | AuxValue::ClassSetter(
                c,
                _,
            ) => if is_method {
                Some(copy_import(c))
            } else {
                None
            },
        },
        AuxImport::Static { js, optional: _ } => {
            let fields: Vec<String> = Vec::new();
            assert(texts(fields@) =~= Seq::<Seq<char>>::empty());
            Some(JsImport { name: copy_name(&js.name), fields })
        },
        AuxImport::ValueWithThis(c, _) | AuxImport::Instanceof(c) | AuxImport::StructuralClassGetter(c, _)
        | AuxImport::StructuralClassSetter(c, _) | AuxImport::IndexingGetterOfClass(c)
        | AuxImport::IndexingSetterOfClass(c) | AuxImport::IndexingDeleterOfClass(c) => Some(copy_import(c)),
        _ => None,
    }
}

/// `prefix` called with the arguments from `start` on, as [`called`]
/// writes it.
fn push_called(prefix: String, args: &Vec<String>, start: usize, variadic: bool) -> (r: Option<String>)
    requires
        start <= args@.len(),
    ensures
        match called(prefix@, texts(args@).skip(start as int), variadic) {
            Some(x) => r matches Some(y) && y@ == x,
            None => r is None,
        },
{
    let mut e = prefix;
    push_text(&mut e, "(");
    if push_call_args(&mut e, args, start, variadic) {
        push_text(&mut e, ")");
        Some(e)
    } else {
        None
    }
}

/// Appends the accessor `which` of the property `field` of `anchor +
/// extra`, as [`descriptor_text`] writes it.
fn push_descriptor(out: &mut String, anchor: &str, extra: &str, field: &str, which: &str)
    ensures
        final(out)@ == old(out)@ + descriptor_text(anchor@, extra@, field@, which@),
{
    push_text(out, "GetOwnOrInheritedPropertyDescriptor(");
    push_text(out, anchor);
    push_text(out, extra);
    push_text(out, ", '");
    push_text(out, field);
    push_text(out, "').");
    push_text(out, which);
    assert(out@ =~= old(out)@ + descriptor_text(anchor@, extra@, field@, which@));
}

/// What [`named_expr`] and [`named_prelude`] say of `r` and the prelude.
pub open spec fn named_finished(
    i: AuxImport,
    kind: AdapterJsImportKind,
    n: Seq<char>,
    a: Seq<Seq<char>>,
    variadic: bool,
    p0: Seq<char>,
    p1: Seq<char>,
    r: Result<ImportJs, ImportError>,
) -> bool {
    match named_expr(i, kind, n, a, variadic) {
        Some(x) => {
            &&& r matches Ok(j) && j.expr@ == x && j.helper is None && j.inherited_descriptor == descriptor_needed(
                i,
                kind,
            )
            &&& p1 == p0 + named_prelude(i, n, a)
        },
        None => r matches Err(ImportError::VariadicWithoutArguments) && p1 == p0,
    }
}

fn expr_only(e: Option<String>, descriptor: bool) -> (r: Result<ImportJs, ImportError>)
    ensures
        match e {
            Some(x) => r matches Ok(j) && j.expr@ == x@ && j.helper is None && j.inherited_descriptor == descriptor
               ,
            None => r matches Err(ImportError::VariadicWithoutArguments),
        },
{
    match e {
        Some(x) => Ok(ImportJs { expr: x, helper: None, inherited_descriptor: descriptor }),
        None => Err(ImportError::VariadicWithoutArguments),
    }
}

/// The expression for `import` once the item it names is named `n`.
fn finish_named(
    import: &AuxImport,
    kind: AdapterJsImportKind,
    n: &String,
    args: &Vec<String>,
    variadic: bool,
    prelude: &mut String,
) -> (r: Result<ImportJs, ImportError>)
    requires
        import_call_ok(*import, kind, args@.len(), variadic),
        import_target(*import, kind) is Some,
    ensures
        named_finished(*import, kind, n@, texts(args@), variadic, old(prelude)@, final(prelude)@, r),
{
    let ghost a = texts(args@);
    assert(a.skip(0) =~= a);
    match import {
        AuxImport::Value(v) => {
            match kind {
                AdapterJsImportKind::Constructor => {
                    let mut e = String::new();
                    push_text(&mut e, "new ");
                    push_text(&mut e, n.as_str());
                    expr_only(push_called(e, args, 0, variadic), false)
                },
                AdapterJsImportKind::Normal => expr_only(push_called(copy_string(n), args, 0, variadic), false),
                AdapterJsImportKind::Method => {
                    let mut e = String::new();
                    let descriptor = match v {
                        AuxValue::Bare(_) => {
                            push_text(&mut e, n.as_str());
                            false
                        },
                        AuxValue::Getter(_, f) => {
                            push_descriptor(&mut e, n.as_str(), ".prototype", f.as_str(), "get");
                            true
                        },
                        AuxValue::ClassGetter(_, f) => {
                            push_descriptor(&mut e, n.as_str(), "", f.as_str(), "get");
                            true
                        },
                        AuxValue::Setter(_, f) => {
                            push_descriptor(&mut e, n.as_str(), ".prototype", f.as_str(), "set");
                            true
                        },
                        AuxValue::ClassSetter(_, f) => {
                            push_descriptor(&mut e, n.as_str(), "", f.as_str(), "set");
                            true
                        },
                    };
                    proof {
                        reveal_strlit("");
                        assert(""@ =~= Seq::<char>::empty());
                    }
                    push_text(&mut e, ".call");
                    expr_only(push_called(e, args, 0, variadic), descriptor)
                },
            }
        },
        AuxImport::ValueWithThis(_, name) => {
            let mut e = copy_string(n);
            let acc = property_accessor(name.as_str());
            push_text(&mut e, acc.as_str());
            expr_only(push_called(e, args, 0, variadic), false)
        },
        AuxImport::Instanceof(_) => {
            push_text(prelude, "let result;\n                    try {\n                        result = ");
            push_text(prelude, args[0].as_str());
            push_text(prelude, " instanceof ");
            push_text(prelude, n.as_str());
            push_text(
                prelude,
                ";\n                    } catch (_) {\n                        result = false;\n                    }\n                    ",
            );
            assert(prelude@ =~= old(prelude)@ + instanceof_prelude(a[0], n@));
            let mut e = String::new();
            push_text(&mut e, "result");
            expr_only(Some(e), false)
        },
        AuxImport::Static { js, optional } => {
            let mut e = String::new();
            if *optional {
                push_text(&mut e, "typeof ");
                push_text(&mut e, n.as_str());
                push_text(&mut e, " === 'undefined' ? null : ");
                push_text(&mut e, n.as_str());
                let ghost base = e@;
                let mut i: usize = 0;
                while i < js.fields.len()
                    invariant
                        i <= js.fields@.len(),
                        e@ == with_optional_fields(base, texts(js.fields@).take(i as int)),
                    decreases js.fields@.len() - i,
                {
                    push_text(&mut e, "?.");
                    push_text(&mut e, js.fields[i].as_str());
                    i = i + 1;
                    assert(texts(js.fields@).take(i as int).drop_last() =~= texts(js.fields@).take(i as int - 1));
                }
                assert(texts(js.fields@).take(js.fields@.len() as int) =~= texts(js.fields@));
                assert(base =~= "typeof "@ + n@ + " === 'undefined' ? null : "@ + n@);
            } else {
                push_text(&mut e, n.as_str());
                push_fields(&mut e, &js.fields);
            }
            expr_only(Some(e), false)
        },
        AuxImport::StructuralClassGetter(_, f) => {
            let mut e = copy_string(n);
            let acc = property_accessor(f.as_str());
            push_text(&mut e, acc.as_str());
            expr_only(Some(e), false)
        },
        AuxImport::StructuralClassSetter(_, f) => {
            let mut e = copy_string(n);
            let acc = property_accessor(f.as_str());
            push_text(&mut e, acc.as_str());
            push_text(&mut e, " = ");
            push_text(&mut e, args[0].as_str());
            expr_only(Some(e), false)
        },
        AuxImport::IndexingGetterOfClass(_) => {
            let mut e = copy_string(n);
            push_text(&mut e, "[");
            push_text(&mut e, args[0].as_str());
            push_text(&mut e, "]");
            expr_only(Some(e), false)
        },
        AuxImport::IndexingSetterOfClass(_) => {
            let mut e = copy_string(n);
            push_text(&mut e, "[");
            push_text(&mut e, args[0].as_str());
            push_text(&mut e, "] = ");
            push_text(&mut e, args[1].as_str());
            expr_only(Some(e), false)
        },
        AuxImport::IndexingDeleterOfClass(_) => {
            let mut e = String::new();
            push_text(&mut e, "delete ");
            push_text(&mut e, n.as_str());
            push_text(&mut e, "[");
            push_text(&mut e, args[0].as_str());
            push_text(&mut e, "]");
            expr_only(Some(e), false)
        },
        _ => {
            assert(false);
            Err(ImportError::VariadicWithoutArguments)
        },
    }
}

/// Where a split linked module's URL is resolved from, in the output mode.
pub open spec fn link_base(env: ImportEnv) -> Seq<char> {
    match env.intrinsics.mode {
        OutputMode::Node => if env.node_module {
            "import.meta.url"@
        } else {
            "require('url').pathToFileURL(__filename)"@
        },
        OutputMode::NoModules => "script_src"@,
        _ => "import.meta.url"@,
    }
}

/// What a split linked module needs before its URL: outside a web page's
/// main thread the no-modules output has no script URL to start from.
pub open spec fn link_guard(env: ImportEnv) -> Seq<char> {
    if env.intrinsics.mode is NoModules {
        "if (script_src === undefined) {\n                                    throw new Error(\n                                        \"When `--split-linked-modules` is enabled on the `no-modules` target, linked modules cannot be used outside of a web page's main thread.\n\nTo fix this, disable `--split-linked-modules`.\"\n                                    );\n                                 }"@
    } else {
        seq![]
    }
}

/// The URL of an inline linked module, whose code is in `val`.
pub open spec fn link_blob() -> Seq<char> {
    "typeof URL.createObjectURL === 'undefined' ? \"data:application/javascript,\" + encodeURIComponent(val) : URL.createObjectURL(new Blob([val], { type: \"text/javascript\" }))"@
}

/// What writing `i`, which names nothing, does: `r` and the prelude (`p0`
/// to `p1`).
pub open spec fn plain_invoked(
    i: AuxImport,
    kind: AdapterJsImportKind,
    a: Seq<Seq<char>>,
    variadic: bool,
    p0: Seq<char>,
    p1: Seq<char>,
    env: ImportEnv,
    r: Result<ImportJs, ImportError>,
) -> bool {
    match i {
        AuxImport::Value(_) => p1 == p0 && if kind == AdapterJsImportKind::Constructor {
            r matches Err(ImportError::InvalidConstructor)
        } else {
            r matches Err(ImportError::InvalidFreeFunction)
        },
        AuxImport::String(t) => p1 == p0 && plain_ok(r, "`"@ + template_escaped(t@) + "`"@),
        AuxImport::Cast { sig_comment } => p1 == p0 + "// Cast intrinsic for `"@ + sig_comment@ + "`.\n"@ && plain_ok(
            r,
            a[0],
        ),
        AuxImport::StructuralMethod(name) => p1 == p0 && if a.len() == 0 {
            r matches Err(ImportError::NoReceiver)
        } else {
            match called(a[0] + property_accessor_text(name@), a.skip(1), variadic) {
                Some(x) => plain_ok(r, x),
                None => r matches Err(ImportError::VariadicWithoutArguments),
            }
        },
        AuxImport::StructuralGetter(f) => p1 == p0 && plain_ok(r, a[0] + property_accessor_text(f@)),
        AuxImport::StructuralSetter(f) => p1 == p0 && plain_ok(r, a[0] + property_accessor_text(f@) + " = "@ + a[1]),
        AuxImport::IndexingGetterOfObject => p1 == p0 && plain_ok(r, a[0] + "["@ + a[1] + "]"@),
        AuxImport::IndexingSetterOfObject => p1 == p0 && plain_ok(r, a[0] + "["@ + a[1] + "] = "@ + a[2]),
        AuxImport::IndexingDeleterOfObject => p1 == p0 && plain_ok(r, "delete "@ + a[0] + "["@ + a[1] + "]"@),
        AuxImport::LinkTo(path, content) => if env.split_linked_modules {
            p1 == p0 + link_guard(env) && plain_ok(r, "new URL('"@ + path@ + "', "@ + link_base(env) + ").toString()"@)
        } else {
            match content {
                Some(c) => p1 == p0 + "const val = `"@ + template_escaped(c@) + "`;\n"@ && plain_ok(r, link_blob()),
                None => p1 == p0 && (r matches Err(ImportError::LinkNotEmbedded(q)) && q@ == path@),
            }
        },
        _ => true,
    }
}

fn plain_expr(e: String) -> (r: Result<ImportJs, ImportError>)
    ensures
        plain_ok(r, e@),
{
    Ok(ImportJs { expr: e, helper: None, inherited_descriptor: false })
}

/// Writes the import `import`, which names nothing, as [`plain_invoked`]
/// says.
fn plain_import(
    import: &AuxImport,
    kind: AdapterJsImportKind,
    args: &Vec<String>,
    variadic: bool,
    prelude: &mut String,
    env: &ImportEnv,
) -> (r: Result<ImportJs, ImportError>)
    requires
        import_call_ok(*import, kind, args@.len(), variadic),
    ensures
        plain_invoked(*import, kind, texts(args@), variadic, old(prelude)@, final(prelude)@, *env, r),
{
    let ghost a = texts(args@);
    match import {
        AuxImport::Value(_) => if kind == AdapterJsImportKind::Constructor {
            Err(ImportError::InvalidConstructor)
        } else {
            Err(ImportError::InvalidFreeFunction)
        },
        AuxImport::String(t) => {
            let mut e = String::new();
            push_text(&mut e, "`");
            push_template_escaped(&mut e, t.as_str());
            push_text(&mut e, "`");
            plain_expr(e)
        },
        AuxImport::Cast { sig_comment } => {
            push_text(prelude, "// Cast intrinsic for `");
            push_text(prelude, sig_comment.as_str());
            push_text(prelude, "`.\n");
            plain_expr(copy_string(&args[0]))
        },
        AuxImport::StructuralMethod(name) => {
            if args.len() == 0 {
                return Err(ImportError::NoReceiver);
            }
            let mut e = copy_string(&args[0]);
            let acc = property_accessor(name.as_str());
            push_text(&mut e, acc.as_str());
            match push_called(e, args, 1, variadic) {
                Some(x) => plain_expr(x),
                None => Err(ImportError::VariadicWithoutArguments),
            }
        },
        AuxImport::StructuralGetter(f) => {
            let mut e = copy_string(&args[0]);
            let acc = property_accessor(f.as_str());
            push_text(&mut e, acc.as_str());
            plain_expr(e)
        },
        AuxImport::StructuralSetter(f) => {
            let mut e = copy_string(&args[0]);
            let acc = property_accessor(f.as_str());
            push_text(&mut e, acc.as_str());
            push_text(&mut e, " = ");
            push_text(&mut e, args[1].as_str());
            plain_expr(e)
        },
        AuxImport::IndexingGetterOfObject => {
            let mut e = copy_string(&args[0]);
            push_text(&mut e, "[");
            push_text(&mut e, args[1].as_str());
            push_text(&mut e, "]");
            plain_expr(e)
        },
        AuxImport::IndexingSetterOfObject => {
            let mut e = copy_string(&args[0]);
            push_text(&mut e, "[");
            push_text(&mut e, args[1].as_str());
            push_text(&mut e, "] = ");
            push_text(&mut e, args[2].as_str());
            plain_expr(e)
        },
        AuxImport::IndexingDeleterOfObject => {
            let mut e = String::new();
            push_text(&mut e, "delete ");
            push_text(&mut e, args[0].as_str());
            push_text(&mut e, "[");
            push_text(&mut e, args[1].as_str());
            push_text(&mut e, "]");
            plain_expr(e)
        },
        AuxImport::LinkTo(path, content) => {
            if env.split_linked_modules {
                let mut e = String::new();
                push_text(&mut e, "new URL('");
                push_text(&mut e, path.as_str());
                push_text(&mut e, "', ");
                match env.intrinsics.mode {
                    OutputMode::Node => if env.node_module {
                        push_text(&mut e, "import.meta.url");
                    } else {
                        push_text(&mut e, "require('url').pathToFileURL(__filename)");
                    },
                    OutputMode::NoModules => {
                        push_text(prelude, "if (script_src === undefined) {\n                                    throw new Error(\n                                        \"When `--split-linked-modules` is enabled on the `no-modules` target, linked modules cannot be used outside of a web page's main thread.\n\nTo fix this, disable `--split-linked-modules`.\"\n                                    );\n                                 }");
                        push_text(&mut e, "script_src");
                    },
                    _ => {
                        push_text(&mut e, "import.meta.url");
                    },
                }
                push_text(&mut e, ").toString()");
                proof {
                    if !(env.intrinsics.mode is NoModules) {
                        assert(old(prelude)@ + link_guard(*env) =~= old(prelude)@);
                    }
                }
                plain_expr(e)
            } else {
                match content {
                    Some(c) => {
                        push_text(prelude, "const val = `");
                        push_template_escaped(prelude, c.as_str());
                        push_text(prelude, "`;\n");
                        let mut e = String::new();
                        push_text(&mut e, "typeof URL.createObjectURL === 'undefined' ? \"data:application/javascript,\" + encodeURIComponent(val) : URL.createObjectURL(new Blob([val], { type: \"text/javascript\" }))");
                        plain_expr(e)
                    },
                    None => Err(ImportError::LinkNotEmbedded(copy_string(path))),
                }
            }
        },
        _ => Err(ImportError::NoReceiver),
    }
}

/// What writing a wrap (`wrap`) or unwrap of the class `key` does to the
/// names (`s` to `s2`) and the classes (`c0` to `c1`): the class is
/// required, marked as needing `__wrap` (or `__unwrap`), and called by its
/// identifier.
pub open spec fn class_invoked(
    s: ImportNames,
    s2: ImportNames,
    c0: Seq<(Seq<char>, ExportedClass)>,
    c1: Seq<(Seq<char>, ExportedClass)>,
    key: Seq<char>,
    wrap: bool,
    a: Seq<Seq<char>>,
    r: Result<ImportJs, ImportError>,
) -> bool {
    &&& s2.imported_names == s.imported_names
    &&& s2.js_imports == s.js_imports
    &&& s2.imports_post == s.imports_post
    &&& exists|mid: Seq<(Seq<char>, ExportedClass)>, i: int|
        {
            &&& #[trigger] class_required(
                c0,
                mid,
                entries_map(entries(s.identifiers@)),
                entries_map(entries(s2.identifiers@)),
                key,
                i,
            )
            &&& c1 == mid.update(
                i,
                (
                    key,
                    if wrap {
                        ExportedClass { wrap_needed: true, ..mid[i].1 }
                    } else {
                        ExportedClass { unwrap_needed: true, ..mid[i].1 }
                    },
                ),
            )
            &&& r matches Ok(j) && j.expr@ == mid[i].1.identifier@ + (if wrap {
                ".__wrap("@
            } else {
                ".__unwrap("@
            }) + a[0] + ")"@ && j.helper is None && !j.inherited_descriptor
        }
}

/// What writing the intrinsic `x` does.
pub open spec fn intrinsic_invoked(
    x: Intrinsic,
    a: Seq<Seq<char>>,
    p0: Seq<char>,
    p1: Seq<char>,
    env: IntrinsicEnv,
    r: Result<ImportJs, ImportError>,
) -> bool {
    match intrinsic_parts(x, env) {
        Ok((e, p, h)) => {
            &&& r matches Ok(j) && j.expr@ == render(e, a, env) && j.helper == h && !j.inherited_descriptor
               
            &&& p1 == p0 + render(p, a, env)
        },
        Err(y) => p1 == p0 && (r matches Err(ImportError::Intrinsic(z)) && z == y),
    }
}

/// What writing the import `i` for an adapter of kind `kind`, with the
/// arguments `a`, does (names `s` to `s2`, classes `q0` to `q1`, classes
/// known by qualified names under their Rust names by `q2r`,
/// prelude `p0` to `p1`, result `r`): the item it names is named first,
/// then the call, access or construction is written; see
/// [`named_expr`], [`plain_invoked`], [`class_invoked`] and
/// [`intrinsic_invoked`].
pub open spec fn import_invoked(
    s: ImportNames,
    s2: ImportNames,
    q0: Seq<(Seq<char>, ExportedClass)>,
    q1: Seq<(Seq<char>, ExportedClass)>,
    q2r: Seq<(Seq<char>, Seq<char>)>,
    i: AuxImport,
    kind: AdapterJsImportKind,
    a: Seq<Seq<char>>,
    variadic: bool,
    p0: Seq<char>,
    p1: Seq<char>,
    env: ImportEnv,
    r: Result<ImportJs, ImportError>,
) -> bool {
    match import_target(i, kind) {
        Some((k, fs)) => q1 == q0 && exists|rn: Result<String, ImportError>|
            {
                &&& #[trigger] name_given(s, s2, k, fs, rn)
                &&& match rn {
                    Ok(n) => named_finished(i, kind, n@, a, variadic, p0, p1, r),
                    Err(e) => r == Err::<ImportJs, ImportError>(e) && p1 == p0,
                }
            },
        None => match i {
            AuxImport::Intrinsic(x) => s2 == s && q1 == q0 && intrinsic_invoked(x, a, p0, p1, env.intrinsics, r),
            AuxImport::WrapInExportedClass(c) => p1 == p0 && class_invoked(s, s2, q0, q1, class_key(q2r, c@), true, a, r),
            AuxImport::UnwrapExportedClass(c) => p1 == p0 && class_invoked(
                s,
                s2,
                q0,
                q1,
                class_key(q2r, c@),
                false,
                a,
                r,
            ),
            _ => s2 == s && q1 == q0 && plain_invoked(i, kind, a, variadic, p0, p1, env, r),
        },
    }
}

impl ImportNames {
    /// Writes the JavaScript with which an adapter of kind `kind` reaches
    /// the import `import` with the arguments `args`, naming what it
    /// imports; code it needs first goes to `prelude`. Exported classes,
    /// which a wrap or unwrap requires, are kept in `classes` by their Rust
    /// names, which `qualified_to_rust_name` gives for qualified names. See
    /// [`import_invoked`].
    pub fn invoke_import(
        &mut self,
        classes: &mut Vec<(String, ExportedClass)>,
        qualified_to_rust_name: &Vec<(String, String)>,
        import: &AuxImport,
        kind: AdapterJsImportKind,
        args: &Vec<String>,
        variadic: bool,
        prelude: &mut String,
        env: &ImportEnv,
    ) -> (r: Result<ImportJs, ImportError>)
        requires
            old(self).wf(),
            keys_distinct(entries(old(classes)@)),
            classes_wf(entries(old(classes)@)),
            keys_distinct(entries(qualified_to_rust_name@)),
            import_call_ok(*import, kind, args@.len(), variadic),
        ensures
            import_invoked(
                *old(self),
                *final(self),
                entries(old(classes)@),
                entries(final(classes)@),
                entries(qualified_to_rust_name@),
                *import,
                kind,
                texts(args@),
                variadic,
                old(prelude)@,
                final(prelude)@,
                *env,
                r,
            ),
            keys_distinct(entries(final(self).identifiers@)),
            keys_distinct(entries(final(classes)@)),
            classes_wf(entries(final(classes)@)),
    {
        let ghost s0 = *self;
        match target_import(import, kind) {
            Some(t) => {
                let rn = self.import_name(&t);
                proof {
                    assert(name_given(s0, *self, target_of(t).0, target_of(t).1, rn));
                }
                match rn {
                    Ok(n) => finish_named(import, kind, &n, args, variadic, prelude),
                    Err(e) => Err(e),
                }
            },
            None => match import {
                AuxImport::Intrinsic(x) => match invoke_intrinsic(x, args, prelude, &env.intrinsics) {
                    Ok(j) => Ok(ImportJs { expr: j.expr, helper: j.helper, inherited_descriptor: false }),
                    Err(y) => Err(ImportError::Intrinsic(y)),
                },
                AuxImport::WrapInExportedClass(c) | AuxImport::UnwrapExportedClass(c) => {
                    let wrap = match import {
                        AuxImport::WrapInExportedClass(_) => true,
                        _ => false,
                    };
                    let ghost c0 = entries(classes@);
                    let i = require_class(classes, qualified_to_rust_name, &mut self.identifiers, c.as_str());
                    let ghost mid = entries(classes@);
                    let ghost key = class_key(entries(qualified_to_rust_name@), c@);
                    let mut e = String::new();
                    push_text(&mut e, classes[i].1.identifier.as_str());
                    if wrap {
                        push_text(&mut e, ".__wrap(");
                    } else {
                        push_text(&mut e, ".__unwrap(");
                    }
                    push_text(&mut e, args[0].as_str());
                    push_text(&mut e, ")");
                    let mut entry: (String, ExportedClass) = (String::new(), ExportedClass::new());
                    classes.set_and_swap(i, &mut entry);
                    let (k, mut class) = entry;
                    if wrap {
                        class.wrap_needed = true;
                    } else {
                        class.unwrap_needed = true;
                    }
                    classes.set(i, (k, class));
                    let r = Ok(ImportJs { expr: e, helper: None, inherited_descriptor: false });
                    proof {
                        let c1 = entries(classes@);
                        assert(c1 =~= mid.update(
                            i as int,
                            (
                                key,
                                if wrap {
                                    ExportedClass { wrap_needed: true, ..mid[i as int].1 }
                                } else {
                                    ExportedClass { unwrap_needed: true, ..mid[i as int].1 }
                                },
                            ),
                        ));
                        assert(keys_distinct(c1)) by {
                            assert forall|x: int, y: int| 0 <= x < y < c1.len() implies (#[trigger] c1[x]).0
                                != (#[trigger] c1[y]).0 by {
                                assert(c1[x].0 == mid[x].0 && c1[y].0 == mid[y].0);
                            }
                        }
                        assert forall|j: int| 0 <= j < c1.len() implies (#[trigger] c1[j]).1.wf() by {
                            assert(mid[j].1.wf());
                        }
                        assert(class_required(
                            c0,
                            mid,
                            entries_map(entries(s0.identifiers@)),
                            entries_map(entries(self.identifiers@)),
                            key,
                            i as int,
                        ));
                    }
                    r
                },
                _ => plain_import(import, kind, args, variadic, prelude, env),
            },
        }
    }
}

/// Why a re-export cannot be written.
#[derive(Debug)]
pub enum ReexportError {
    /// The re-exported item cannot be named.
    Import(ImportError),
    /// The export name is taken; the message says how.
    Export(String),
}

/// Whether `def` is the definition that re-exports the item named `n`:
/// the name itself, with no code of its own, declared as `unknown` in the
/// TypeScript where that is generated.
pub open spec fn reexport_definition(def: ExportDefinition, n: Seq<char>, generate_typescript: bool) -> bool {
    &&& def.identifier@ == n
    &&& def.comments is None
    &&& def.definition@ == Seq::<char>::empty()
    &&& def.ts_comments is None
    &&& def.ts_definition@ == if generate_typescript {
        "let "@ + n + ": unknown;\n"@
    } else {
        Seq::<char>::empty()
    }
    &&& !def.private
}

/// What re-exporting the JavaScript item `js` under `name` does (names `s`
/// to `s2`, exports `e0` to `e1`, result `r`): the item is named, then
/// exported at the top level under that name.
pub open spec fn reexported(
    s: ImportNames,
    s2: ImportNames,
    e0: Seq<(Seq<char>, EntryView)>,
    e1: Seq<(Seq<char>, EntryView)>,
    name: Seq<char>,
    js: JsImport,
    generate_typescript: bool,
    r: Result<(), ReexportError>,
) -> bool {
    exists|rn: Result<String, ImportError>|
        {
            &&& #[trigger] import_named(s, s2, js, rn)
            &&& match rn {
                Err(e) => e1 == e0 && r == Err::<(), ReexportError>(ReexportError::Import(e)),
                Ok(n) => exists|def: ExportDefinition|
                    {
                        &&& #[trigger] reexport_definition(def, n@, generate_typescript)
                        &&& match spec_define_export(e0, name, seq![], def) {
                            Ok(x) => r is Ok && e1 == x,
                            Err(m) => (r matches Err(ReexportError::Export(y)) && y@ == m) && e1 == e0,
                        }
                    },
            }
        }
}

impl ImportNames {
    /// Re-exports the JavaScript item `js` from the generated module under
    /// `name`; see [`reexported`].
    pub fn reexport(
        &mut self,
        exports: &mut Vec<(String, ExportEntry)>,
        name: &str,
        js: &JsImport,
        generate_typescript: bool,
    ) -> (r: Result<(), ReexportError>)
        requires
            old(self).wf(),
        ensures
            reexported(
                *old(self),
                *final(self),
                entries_view(old(exports)@),
                entries_view(final(exports)@),
                name@,
                *js,
                generate_typescript,
                r,
            ),
            keys_distinct(entries(final(self).identifiers@)),
    {
        let rn = self.import_name(js);
        match rn {
            Err(e) => Err(ReexportError::Import(e)),
            Ok(n) => {
                let mut ts_definition = String::new();
                if generate_typescript {
                    push_text(&mut ts_definition, "let ");
                    push_text(&mut ts_definition, n.as_str());
                    push_text(&mut ts_definition, ": unknown;\n");
                }
                let ghost nv = n@;
                let def = ExportDefinition {
                    identifier: n,
                    comments: None,
                    definition: String::new(),
                    ts_comments: None,
                    ts_definition,
                    private: false,
                };
                assert(reexport_definition(def, nv, generate_typescript));
                let path: Vec<String> = Vec::new();
                proof {
                    assert(crate::js::path_views(path@) =~= Seq::<Seq<char>>::empty());
                }
                match define_export(exports, name, path.as_slice(), def) {
                    Ok(()) => Ok(()),
                    Err(m) => Err(ReexportError::Export(m)),
                }
            },
        }
    }
}

/// The JavaScript that creates an imported memory of `initial` pages, at
/// most `maximum`, shared where `shared`; outside the bundler output a
/// memory handed to the initialisation is used first.
pub open spec fn memory_init(initial: u64, maximum: Option<u64>, shared: bool, bundler: bool) -> Seq<char> {
    (if bundler {
        Seq::<char>::empty()
    } else {
        "memory || "@
    }) + "new WebAssembly.Memory({initial:"@ + decimal(initial as nat) + match maximum {
        Some(m) => ",maximum:"@ + decimal(m as nat),
        None => Seq::<char>::empty(),
    } + if shared {
        ",shared:true"@
    } else {
        Seq::<char>::empty()
    } + "})"@
}

/// Returns the JavaScript that creates an imported memory; see
/// [`memory_init`].
pub fn memory_import_init(initial: u64, maximum: Option<u64>, shared: bool, bundler: bool) -> (r: String)
    ensures
        r@ == memory_init(initial, maximum, shared, bundler),
{
    let mut out = String::new();
    if !bundler {
        push_text(&mut out, "memory || ");
    }
    push_text(&mut out, "new WebAssembly.Memory({initial:");
    push_decimal(&mut out, initial);
    if let Some(m) = maximum {
        push_text(&mut out, ",maximum:");
        push_decimal(&mut out, m);
    }
    if shared {
        push_text(&mut out, ",shared:true");
    }
    push_text(&mut out, "})");
    assert(out@ =~= memory_init(initial, maximum, shared, bundler));
    out
}

/// The comment that points Deno and JSR at the module's type declarations:
/// written where TypeScript is generated, except for the no-modules and
/// bundler outputs.
pub open spec fn self_types_directive(typescript: bool, mode: OutputMode, module_name: Seq<char>) -> Option<Seq<char>> {
    if typescript && !(mode is NoModules) && !(mode is Bundler) {
        Some("/* @ts-self-types=\"./"@ + module_name + ".d.ts\" */\n"@)
    } else {
        None
    }
}

/// Returns the self-types comment of the output, if it has one; see
/// [`self_types_directive`].
pub fn ts_self_types(typescript: bool, mode: OutputMode, module_name: &str) -> (r: Option<String>)
    ensures
        match self_types_directive(typescript, mode, module_name@) {
            Some(x) => r matches Some(y) && y@ == x,
            None => r is None,
        },
{
    if typescript && !matches!(mode, OutputMode::NoModules) && !matches!(mode, OutputMode::Bundler) {
        let mut out = String::new();
        push_text(&mut out, "/* @ts-self-types=\"./");
        push_text(&mut out, module_name);
        push_text(&mut out, ".d.ts\" */\n");
        Some(out)
    } else {
        None
    }
}

/// Where the ES module imports go in the glue: after the self-types
/// comment where the glue starts with one, else at the top.
pub open spec fn es_imports_at(globals: Seq<char>) -> nat {
    let directive = "/* @ts-self-types"@;
    if directive.len() <= globals.len() && globals.subrange(0, directive.len() as int) == directive {
        match find_char(globals, '\n') {
            Some(p) => p + 1,
            None => 0,
        }
    } else {
        0
    }
}

/// Returns the glue `globals` with the ES module imports `es_imports`, and
/// a line break after them, put where [`es_imports_at`] says.
pub fn insert_es_imports(globals: &str, es_imports: &str) -> (r: String)
    ensures
        r@ == globals@.take(es_imports_at(globals@) as int) + es_imports@ + "\n"@ + globals@.skip(
            es_imports_at(globals@) as int,
        ),
{
    let g = to_chars(globals);
    let d = to_chars("/* @ts-self-types");
    let n = g.len();
    let at: usize = if chars_start_with(&g, &d) {
        match index_of_char(&g, '\n') {
            Some(p) => {
                assert(p < n);
                p + 1
            },
            None => 0,
        }
    } else {
        0
    };
    let mut out = string_of(&g, 0, at);
    push_text(&mut out, es_imports);
    push_text(&mut out, "\n");
    let rest = string_of(&g, at, g.len());
    push_text(&mut out, rest.as_str());
    assert(out@ =~= globals@.take(at as int) + es_imports@ + "\n"@ + globals@.skip(at as int));
    out
}

proof fn lemma_given_after_push(v: Seq<(NameKey, Seq<char>)>, k: NameKey, u: Seq<char>, i: nat)
    requires
        given_name(v, k, i) is None,
        i <= v.len(),
    ensures
        given_name(v.push((k, u)), k, i) == Some(u),
    decreases v.len() + 1 - i,
{
    if i < v.len() {
        assert(v.push((k, u))[i as int] == v[i as int]);
        lemma_given_after_push(v, k, u, i + 1);
    }
}

/// Naming an import that was named before gives the same JavaScript name
/// and changes nothing: each import name is named once.
pub proof fn lemma_import_name_reused(
    s: ImportNames,
    s2: ImportNames,
    s3: ImportNames,
    imp: JsImport,
    r1: Result<String, ImportError>,
    r2: Result<String, ImportError>,
)
    requires
        import_named(s, s2, imp, r1),
        r1 is Ok,
        import_named(s2, s3, imp, r2),
    ensures
        s3 == s2,
        r2 matches Ok(x) && x@ == r1->Ok_0@,
{
    let k = name_key(imp.name);
    let v = names_view(s.imported_names@);
    if given_name(v, k, 0) is None {
        match k {
            NameKey::Global(name) => {},
            NameKey::VendorPrefixed(name, prefixes) => {},
            _ => {
                let (module, name) = module_and_name(k);
                assert(module_item_named(s, s2, k, module, name, texts(imp.fields@), r1));
            },
        }
        let u = choose|u: Seq<char>| name_recorded(s, s2, k, u) && r1->Ok_0@ == with_fields(u, texts(imp.fields@));
        lemma_given_after_push(v, k, u, 0);
    }
}

/// The definition of an imported function whose adapter body is `code`: a
/// call that may throw is wrapped in `handleError` (unless the module
/// catches with its own JS tag), one whose errors are logged in
/// `logError`, else the body is used as it is.
pub open spec fn import_definition(code: Seq<char>, catch: bool, has_wasm_catch: bool, log_error: bool) -> Seq<char> {
    if catch && !has_wasm_catch {
        "function() { return handleError(function "@ + code + ", arguments); }"@
    } else if log_error {
        "function() { return logError(function "@ + code + ", arguments); }"@
    } else {
        "function"@ + code
    }
}

/// Returns the definition of an imported function, and whether it uses the
/// `handleError` helper; see [`import_definition`].
pub fn import_function_code(code: &str, catch: bool, has_wasm_catch: bool, log_error: bool) -> (r: (String, bool))
    ensures
        r.0@ == import_definition(code@, catch, has_wasm_catch, log_error),
        r.1 == (catch && !has_wasm_catch),
{
    let mut out = String::new();
    if catch && !has_wasm_catch {
        push_text(&mut out, "function() { return handleError(function ");
        push_text(&mut out, code);
        push_text(&mut out, ", arguments); }");
        (out, true)
    } else if log_error {
        push_text(&mut out, "function() { return logError(function ");
        push_text(&mut out, code);
        push_text(&mut out, ", arguments); }");
        (out, false)
    } else {
        push_text(&mut out, "function");
        push_text(&mut out, code);
        (out, false)
    }
}

/// Whether errors thrown by the import `i` are never logged in debug mode:
/// intrinsics throw on purpose.
pub fn import_never_log_error(i: &AuxImport) -> (r: bool)
    ensures
        r == (*i is Intrinsic),
{
    match i {
        AuxImport::Intrinsic(_) => true,
        _ => false,
    }
}

} // verus!
