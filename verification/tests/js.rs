use wasm_bindgen_cli_support::js::{
    check_duplicated_getter_and_setter_names, define_export, generate_identifier_with,
    get_or_create_identifier, format_doc_comments, property_accessor, require_class_identifier, split_lines, write_namespace_ts,
    write_class_field_types, write_es_import, ExportDefinition, ExportEntry, ExportKind, ExportedClass, FieldAccessor,
    FieldLocation, MemView, MethodKind,
};

fn accessor(ty: &str) -> FieldAccessor {
    FieldAccessor { ty: ty.to_string(), docs: String::new(), is_optional: false }
}

fn method(class: &str, name: &str, kind: MethodKind, is_static: bool) -> ExportKind {
    ExportKind::Method { class: class.to_string(), name: name.to_string(), kind, is_static }
}

#[test]
fn lines_split_like_str_lines() {
    let text = "a\r\nb\n\nc\n";
    let got: Vec<String> = split_lines(text).into_iter().map(|l| l.into_iter().collect()).collect();
    let want: Vec<String> = text.lines().map(String::from).collect();
    assert_eq!(got, want);
    assert!(split_lines("").is_empty());
}

#[test]
fn doc_comments_become_a_jsdoc_block() {
    assert_eq!(
        format_doc_comments(" Adds two numbers.\n\nReturns the sum.", None),
        "/**\n * Adds two numbers.\n *\n * Returns the sum.\n */\n"
    );
    assert_eq!(
        format_doc_comments("", Some("@param {number} a".to_string())),
        "/**\n * @param {number} a\n */\n"
    );
    assert_eq!(
        format_doc_comments(" Doc", Some("@returns {void}\n@deprecated".to_string())),
        "/**\n * Doc\n * @returns {void}\n * @deprecated\n */\n"
    );
}

#[test]
fn empty_doc_comments_emit_nothing() {
    assert_eq!(format_doc_comments("", None), "");
    assert_eq!(format_doc_comments("", Some(String::new())), "");
}

#[test]
fn memory_views_are_accessed_by_call_or_by_name() {
    let view = MemView { name: "getUint8ArrayMemory".to_string(), num: 0 };
    assert_eq!(view.access(false), "getUint8ArrayMemory0()");
    let heap = MemView { name: "HEAPU8".to_string(), num: 3 };
    assert_eq!(heap.access(true), "HEAPU8");
    assert_eq!(heap.access(false), "HEAPU83()");
}

#[test]
fn class_members_are_appended_with_their_typescript() {
    let mut class = ExportedClass::new();
    class.push("add", "", "/** Adds. */\n", "(a, b) { return a + b; }", " Adds.\n More.", Some("(a: number, b: number): number"));
    class.push("get", "static ", "", "() {}", "", None);
    assert_eq!(class.contents, "/** Adds. */\nadd(a, b) { return a + b; }\nstatic get() {}\n");
    assert_eq!(class.typescript, "   Adds.\n   More.\n  add(a: number, b: number): number;\n");
}

#[test]
fn accessors_of_one_field_share_an_entry() {
    let mut class = ExportedClass::new();
    class.push_accessor_ts(FieldLocation { name: "x".to_string(), is_static: false }, accessor("number"), false);
    class.push_accessor_ts(FieldLocation { name: "y".to_string(), is_static: false }, accessor("string"), true);
    class.push_accessor_ts(FieldLocation { name: "x".to_string(), is_static: false }, accessor("number"), true);
    class.push_accessor_ts(FieldLocation { name: "x".to_string(), is_static: true }, accessor("bool"), false);
    let fields = &class.typescript_fields;
    assert_eq!(fields.len(), 3);
    assert_eq!((fields[0].name.as_str(), fields[0].is_static, fields[0].order), ("x", false, 0));
    assert!(fields[0].getter.is_some() && fields[0].setter.is_some());
    assert_eq!((fields[1].name.as_str(), fields[1].order), ("y", 1));
    assert!(fields[1].getter.is_none() && fields[1].setter.is_some());
    assert_eq!((fields[2].name.as_str(), fields[2].is_static, fields[2].order), ("x", true, 2));
    assert_eq!(fields[2].getter.as_ref().unwrap().ty, "bool");
}

#[test]
fn duplicate_getters_are_rejected() {
    let exports = vec![
        method("Point", "x", MethodKind::Getter, false),
        ExportKind::Other,
        method("Point", "x", MethodKind::Setter, false),
        method("Point", "x", MethodKind::Getter, false),
    ];
    assert_eq!(
        check_duplicated_getter_and_setter_names(&exports),
        Err("There can be only one getter/setter definition for `x` in `Point`".to_string())
    );
}

#[test]
fn distinct_accessors_are_accepted() {
    let exports = vec![
        method("Point", "x", MethodKind::Getter, false),
        method("Point", "x", MethodKind::Setter, false),
        method("Point", "x", MethodKind::Getter, true),
        method("Line", "x", MethodKind::Getter, false),
        method("Point", "y", MethodKind::Getter, false),
        method("Point", "x", MethodKind::Other, false),
        method("Point", "x", MethodKind::Other, false),
    ];
    assert_eq!(check_duplicated_getter_and_setter_names(&exports), Ok(()));
    assert_eq!(check_duplicated_getter_and_setter_names(&[]), Ok(()));
}

#[test]
fn the_first_clashing_export_names_the_error() {
    let exports = vec![
        method("A", "a", MethodKind::Setter, false),
        method("B", "b", MethodKind::Getter, true),
        method("A", "a", MethodKind::Setter, false),
        method("B", "b", MethodKind::Getter, true),
    ];
    assert_eq!(
        check_duplicated_getter_and_setter_names(&exports),
        Err("There can be only one getter/setter definition for `a` in `A`".to_string())
    );
}

#[test]
fn es_imports_quote_invalid_names() {
    let mut out = String::new();
    write_es_import(
        &mut out,
        "./snippets/a.js",
        &[
            ("foo".to_string(), None),
            ("kebab-case".to_string(), Some("kebab_case".to_string())),
            ("bar".to_string(), Some("baz".to_string())),
        ],
    );
    assert_eq!(out, "import { foo, 'kebab-case' as kebab_case, bar as baz } from './snippets/a.js';\n");
}

fn definition(identifier: &str, definition: &str) -> ExportDefinition {
    ExportDefinition {
        identifier: identifier.to_string(),
        comments: None,
        definition: definition.to_string(),
        ts_comments: None,
        ts_definition: String::new(),
        private: false,
    }
}

fn entry<'a>(entries: &'a [(String, ExportEntry)], name: &str) -> &'a ExportEntry {
    &entries.iter().find(|(k, _)| k == name).unwrap().1
}

fn namespace<'a>(e: &'a ExportEntry) -> (&'a Option<String>, &'a Vec<(String, ExportEntry)>) {
    match e {
        ExportEntry::Namespace(ns) => (&ns.id, &ns.ns),
        ExportEntry::Definition(_) => panic!("expected a namespace"),
    }
}

#[test]
fn exports_are_defined_inside_their_namespaces() {
    let mut exports = Vec::new();
    define_export(&mut exports, "add", &[], definition("add", "function add() {}")).unwrap();
    define_export(&mut exports, "sub", &["math".to_string(), "ops".to_string()], definition("sub", "function sub() {}")).unwrap();
    define_export(&mut exports, "mul", &["math".to_string(), "ops".to_string()], definition("mul", "function mul() {}")).unwrap();
    assert_eq!(exports.len(), 2);
    assert!(matches!(entry(&exports, "add"), ExportEntry::Definition(d) if d.identifier == "add"));
    let (id, math) = namespace(entry(&exports, "math"));
    assert!(id.is_none());
    let (_, ops) = namespace(entry(math, "ops"));
    assert_eq!(ops.len(), 2);
    assert!(matches!(entry(ops, "mul"), ExportEntry::Definition(d) if d.definition == "function mul() {}"));
}

#[test]
fn an_empty_definition_names_a_namespace() {
    let mut exports = Vec::new();
    define_export(&mut exports, "f", &["ns".to_string()], definition("f", "function f() {}")).unwrap();
    define_export(&mut exports, "ns", &[], definition("Ns", "")).unwrap();
    let (id, inner) = namespace(entry(&exports, "ns"));
    assert_eq!(id.as_deref(), Some("Ns"));
    assert_eq!(inner.len(), 1);
    assert_eq!(
        define_export(&mut exports, "ns", &[], definition("Other", "")),
        Err("Cannot define export over existing namespace ns".to_string())
    );
}

#[test]
fn an_empty_definition_becomes_a_namespace() {
    let mut exports = Vec::new();
    define_export(&mut exports, "ns", &[], definition("Ns", "")).unwrap();
    define_export(&mut exports, "f", &["ns".to_string()], definition("f", "function f() {}")).unwrap();
    let (id, inner) = namespace(entry(&exports, "ns"));
    assert_eq!(id.as_deref(), Some("Ns"));
    assert!(matches!(entry(inner, "f"), ExportEntry::Definition(_)));
}

#[test]
fn definitions_are_not_replaced() {
    let mut exports = Vec::new();
    define_export(&mut exports, "f", &[], definition("f", "function f() {}")).unwrap();
    assert_eq!(
        define_export(&mut exports, "f", &[], definition("g", "function g() {}")),
        Err("Cannot define export over existing namespace f".to_string())
    );
    assert_eq!(
        define_export(&mut exports, "g", &["f".to_string()], definition("g", "function g() {}")),
        Err("Cannot to define namespace export over existing definition g".to_string())
    );
    assert_eq!(exports.len(), 1);
    assert!(matches!(entry(&exports, "f"), ExportEntry::Definition(d) if d.identifier == "f"));
}

fn typed(ty: &str, docs: &str, is_optional: bool) -> FieldAccessor {
    FieldAccessor { ty: ty.to_string(), docs: docs.to_string(), is_optional }
}

fn field(name: &str, is_static: bool) -> FieldLocation {
    FieldLocation { name: name.to_string(), is_static }
}

#[test]
fn field_types_follow_their_accessors() {
    let mut class = ExportedClass::new();
    class.push_accessor_ts(field("ro", false), typed("number", "Read only.", false), false);
    class.push_accessor_ts(field("wo", false), typed("string", "", true), true);
    class.push_accessor_ts(field("rw", true), typed("number | undefined", "", false), false);
    class.push_accessor_ts(field("rw", true), typed("number", "Set it.", true), true);
    class.push_accessor_ts(field("mixed", false), typed("string", "", false), false);
    class.push_accessor_ts(field("mixed", false), typed("number", "", false), true);
    let mut ts = String::new();
    write_class_field_types(&class, &mut ts);
    assert_eq!(
        ts,
        "  Read only.\n  readonly ro: number;\n\
         \x20 set wo(value: string | undefined);\n\
         \x20 Set it.\n  static rw?: number;\n\
         \x20 get mixed(): string;\n  set mixed(value: number);\n"
    );
}

#[test]
fn optional_getters_are_optional_properties() {
    let mut class = ExportedClass::new();
    class.push_accessor_ts(field("x", false), typed("number", "", true), false);
    let mut ts = String::new();
    write_class_field_types(&class, &mut ts);
    assert_eq!(ts, "  readonly x?: number;\n");
}

#[test]
fn identifiers_are_numbered_until_fresh() {
    let mut ids: Vec<(String, usize)> = Vec::new();
    assert_eq!(generate_identifier_with(&mut ids, "foo"), "foo");
    assert_eq!(generate_identifier_with(&mut ids, "foo"), "foo2");
    assert_eq!(generate_identifier_with(&mut ids, "foo"), "foo3");
    assert_eq!(generate_identifier_with(&mut ids, "foo2"), "foo22");
    assert_eq!(generate_identifier_with(&mut ids, "bar"), "bar");
    let mut taken: Vec<String> = ids.iter().map(|(k, _)| k.clone()).collect();
    taken.sort();
    assert_eq!(taken, vec!["bar", "foo", "foo2", "foo22", "foo3"]);
}

#[test]
fn identifiers_skip_names_already_taken() {
    let mut ids: Vec<(String, usize)> = vec![("x".to_string(), 1), ("x2".to_string(), 1), ("x3".to_string(), 1)];
    assert_eq!(generate_identifier_with(&mut ids, "x"), "x4");
    assert_eq!(ids.iter().find(|(k, _)| k == "x").unwrap().1, 4);
    assert_eq!(generate_identifier_with(&mut ids, "x"), "x5");
}

#[test]
fn identifiers_are_made_valid_first() {
    let mut ids: Vec<(String, usize)> = Vec::new();
    assert_eq!(generate_identifier_with(&mut ids, "my-name"), "my_name");
    assert_eq!(generate_identifier_with(&mut ids, "my.name"), "my_name2");
    assert_eq!(generate_identifier_with(&mut ids, "class"), "_class");
}

#[test]
fn qualified_names_keep_their_identifier() {
    let mut qualified: Vec<(String, String)> = Vec::new();
    let mut ids: Vec<(String, usize)> = Vec::new();
    let a = get_or_create_identifier(&mut qualified, &mut ids, "Foo");
    let b = get_or_create_identifier(&mut qualified, &mut ids, "ns.Foo");
    let c = get_or_create_identifier(&mut qualified, &mut ids, "Foo");
    assert_eq!(a, "Foo");
    assert_eq!(b, "ns_Foo");
    assert_eq!(c, a);
    assert_eq!(qualified.len(), 2);
}

#[test]
fn class_identifiers_are_generated_once() {
    let mut classes: Vec<(String, ExportedClass)> = Vec::new();
    let q2r: Vec<(String, String)> = vec![("ns.Point".to_string(), "Point".to_string())];
    let mut ids: Vec<(String, usize)> = Vec::new();
    let first = require_class_identifier(&mut classes, &q2r, &mut ids, "Point");
    assert_eq!(first, "Point");
    assert_eq!(classes.len(), 1);
    assert_eq!(classes[0].0, "Point");
    assert_eq!(classes[0].1.identifier, "Point");
    assert!(classes[0].1.contents.is_empty() && !classes[0].1.wrap_needed);
    let ids_before = ids.clone();
    // The qualified name reaches the same class, which keeps its identifier.
    let again = require_class_identifier(&mut classes, &q2r, &mut ids, "ns.Point");
    assert_eq!(again, "Point");
    assert_eq!(classes.len(), 1);
    assert_eq!(ids, ids_before);
}

#[test]
fn class_identifiers_come_from_the_qualified_then_js_name() {
    let mut classes: Vec<(String, ExportedClass)> = Vec::new();
    let mut ids: Vec<(String, usize)> = vec![("Shape".to_string(), 1)];
    let mut c = ExportedClass::new();
    c.js_name = Some("Shape".to_string());
    c.contents = "body".to_string();
    classes.push(("RustShape".to_string(), c));
    let mut d = ExportedClass::new();
    d.qualified_name = Some("geo.Circle".to_string());
    d.js_name = Some("Circle".to_string());
    classes.push(("RustCircle".to_string(), d));
    let q2r: Vec<(String, String)> = Vec::new();
    // The JavaScript name is taken already: the identifier is numbered.
    assert_eq!(require_class_identifier(&mut classes, &q2r, &mut ids, "RustShape"), "Shape2");
    let shape = classes.iter().find(|(k, _)| k == "RustShape").unwrap();
    assert_eq!(shape.1.identifier, "Shape2");
    assert_eq!(shape.1.contents, "body");
    // The qualified name wins, made a valid identifier.
    assert_eq!(require_class_identifier(&mut classes, &q2r, &mut ids, "RustCircle"), "geo_Circle");
    let circle = classes.iter().find(|(k, _)| k == "RustCircle").unwrap();
    assert_eq!(circle.1.identifier, "geo_Circle");
}

#[test]
fn exports_are_kept_in_the_order_of_their_names() {
    let mut exports = Vec::new();
    for name in ["zeta", "alpha", "Mid", "beta"] {
        define_export(&mut exports, name, &[], definition(name, "function f() {}")).unwrap();
    }
    define_export(&mut exports, "b", &["ns".to_string()], definition("b", "function b() {}")).unwrap();
    define_export(&mut exports, "a", &["ns".to_string()], definition("a", "function a() {}")).unwrap();
    let names: Vec<&str> = exports.iter().map(|(k, _)| k.as_str()).collect();
    assert_eq!(names, vec!["Mid", "alpha", "beta", "ns", "zeta"]);
    let (_, inner) = namespace(entry(&exports, "ns"));
    let inner_names: Vec<&str> = inner.iter().map(|(k, _)| k.as_str()).collect();
    assert_eq!(inner_names, vec!["a", "b"]);
}

#[test]
fn namespace_types_nest_and_quote_invalid_names() {
    let mut exports = Vec::new();
    define_export(&mut exports, "add", &["math".to_string()], definition("add", "function add() {}")).unwrap();
    define_export(&mut exports, "kebab-case", &["math".to_string()], definition("kebab_case", "function k() {}")).unwrap();
    define_export(&mut exports, "x", &["math".to_string(), "inner".to_string()], definition("x1", "const x1 = 1;")).unwrap();
    let (_, math) = namespace(entry(&exports, "math"));
    assert_eq!(
        write_namespace_ts(math, ""),
        "{\n  add: typeof add,\n  inner: {\n    x: typeof x1,\n  },\n  'kebab-case': typeof kebab_case,\n}"
    );
    assert_eq!(write_namespace_ts(&Vec::new(), "  "), "{\n  }");
}

#[test]
fn property_accessors_use_dots_or_escaped_brackets() {
    assert_eq!(property_accessor("foo"), ".foo");
    assert_eq!(property_accessor("kebab-case"), "[\"kebab-case\"]");
    assert_eq!(property_accessor("1x"), "[\"1x\"]");
    assert_eq!(property_accessor("a\"b\n"), "[\"a\\\"b\\n\"]");
    for name in ["\u{fc}-x", "tab\there", "it's", "back\\slash", "\u{1}\u{7f}\u{1F600}"] {
        assert_eq!(property_accessor(name), format!("[\"{}\"]", name.escape_default()));
    }
    assert_eq!(property_accessor("a b\u{1}"), "[\"a b\\u{1}\"]");
}
