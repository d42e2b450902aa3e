use wasm_bindgen_cli_support::js::{ExportEntry, ExportedClass};
use wasm_bindgen_cli_support::js_export::{
    described_ts_doc, place_constructor, place_export, place_function_export, place_method, require_class, AuxExport,
    AuxExportKind, AuxExportedMethodKind, AuxReceiverKind, ExportState, JsFunction,
};

struct Placed {
    result: Result<(), String>,
    exports: Vec<(String, ExportEntry)>,
    qualified: Vec<(String, String)>,
    typescript: String,
}

fn place(
    name: &str,
    ns: Option<Vec<String>>,
    ts_sig: Option<&str>,
    emscripten: bool,
    identifiers: Vec<(String, usize)>,
) -> Placed {
    let mut exports = Vec::new();
    let mut qualified = Vec::new();
    let mut identifiers = identifiers;
    let mut typescript = String::new();
    let result = place_function_export(
        &mut exports,
        &mut qualified,
        &mut identifiers,
        &mut typescript,
        name,
        &ns,
        "",
        String::new(),
        None,
        &ts_sig.map(|s| s.to_string()),
        "(a) { return a; }",
        emscripten,
    );
    Placed { result, exports, qualified, typescript }
}

fn definition(p: &Placed) -> (String, String, String) {
    match &p.exports[0].1 {
        ExportEntry::Definition(d) => (d.identifier.clone(), d.definition.clone(), d.ts_definition.clone()),
        _ => panic!("expected a definition"),
    }
}

#[test]
fn an_exported_function_is_defined_under_its_identifier() {
    let p = place("add", None, Some("(a: number): number"), false, Vec::new());
    assert!(p.result.is_ok());
    assert_eq!(p.exports[0].0, "add");
    assert_eq!(
        definition(&p),
        (
            "add".to_string(),
            "function add(a) { return a; }\n".to_string(),
            "function add(a: number): number;\n".to_string()
        )
    );
    assert_eq!(p.typescript, "");
    assert_eq!(p.qualified, vec![("add".to_string(), "add".to_string())]);
}

#[test]
fn a_namespaced_function_gets_the_identifier_of_its_qualified_name() {
    let p = place("sub", Some(vec!["math".to_string(), "ops".to_string()]), None, false, Vec::new());
    assert!(p.result.is_ok());
    assert_eq!(p.qualified, vec![("math__ops__sub".to_string(), "math__ops__sub".to_string())]);
    match &p.exports[0].1 {
        ExportEntry::Namespace(ns) => assert_eq!(ns.ns[0].0, "ops"),
        _ => panic!("expected a namespace"),
    }
}

#[test]
fn a_taken_identifier_is_numbered() {
    let p = place("Array", None, None, false, vec![("Array".to_string(), 1)]);
    assert_eq!(definition(&p).0, "Array2");
    assert_eq!(definition(&p).1, "function Array2(a) { return a; }\n");
    assert_eq!(definition(&p).2, "");
}

#[test]
fn emscripten_declarations_go_to_the_typescript_output() {
    let p = place("add", None, Some("(a: number): number"), true, Vec::new());
    assert_eq!(p.typescript, "add(a: number): number;\n");
    assert_eq!(definition(&p).2, "");
}

#[test]
fn a_required_class_gets_an_identifier_once() {
    let mut classes: Vec<(String, ExportedClass)> = Vec::new();
    let mut identifiers = vec![("Array".to_string(), 1)];
    let q2r = vec![("ns__Array".to_string(), "Array".to_string())];
    let i = require_class(&mut classes, &q2r, &mut identifiers, "ns__Array");
    assert_eq!(classes[i].0, "Array");
    assert_eq!(classes[i].1.identifier, "Array2");
    let j = require_class(&mut classes, &q2r, &mut identifiers, "Array");
    assert_eq!(i, j);
    assert_eq!(classes.len(), 1);
    assert_eq!(classes[j].1.identifier, "Array2");
}

#[test]
fn a_class_without_identifier_is_named_by_its_js_name() {
    let mut c = ExportedClass::new();
    c.js_name = Some("Point".to_string());
    let mut classes = vec![("WasmPoint".to_string(), c)];
    let mut identifiers = Vec::new();
    let i = require_class(&mut classes, &Vec::new(), &mut identifiers, "WasmPoint");
    assert_eq!(classes[i].1.identifier, "Point");
    assert_eq!(identifiers, vec![("Point".to_string(), 1)]);
}

#[test]
fn a_class_has_one_constructor() {
    let mut classes: Vec<(String, ExportedClass)> = Vec::new();
    let mut identifiers = Vec::new();
    let q2r: Vec<(String, String)> = Vec::new();
    let sig = Some("(x: number)".to_string());
    let r = place_constructor(&mut classes, &q2r, &mut identifiers, "Foo", "", "(x) { this.x = x; }", "", &sig);
    assert!(r.is_ok());
    assert!(classes[0].1.has_constructor);
    assert_eq!(classes[0].1.contents, "constructor(x) { this.x = x; }\n");
    assert_eq!(classes[0].1.typescript, "  constructor(x: number);\n");
    let again = place_constructor(&mut classes, &q2r, &mut identifiers, "Foo", "", "() {}", "", &None);
    assert_eq!(again, Err("found duplicate constructor for class `Foo`".to_string()));
    assert_eq!(classes[0].1.contents, "constructor(x) { this.x = x; }\n");
}

fn method(
    classes: &mut Vec<(String, ExportedClass)>,
    name: &str,
    receiver: AuxReceiverKind,
    kind: AuxExportedMethodKind,
    code: &str,
    ts_sig: Option<&str>,
    ret: Option<&str>,
    args: &[&str],
    optional: bool,
) {
    let mut identifiers = Vec::new();
    place_method(
        classes,
        &Vec::new(),
        &mut identifiers,
        "Foo",
        name,
        receiver,
        kind,
        "",
        code,
        "",
        &ts_sig.map(|s| s.to_string()),
        true,
        ret.map(|s| s.to_string()),
        &args.iter().map(|s| s.to_string()).collect(),
        optional,
    );
}

#[test]
fn methods_are_added_to_their_class() {
    let mut classes: Vec<(String, ExportedClass)> = Vec::new();
    method(&mut classes, "bar", AuxReceiverKind::Borrowed, AuxExportedMethodKind::Method, "(a) { return a; }", Some("(a: number): number"), None, &[], false);
    method(&mut classes, "make", AuxReceiverKind::Static, AuxExportedMethodKind::Method, "() { return 1; }", None, None, &[], false);
    assert_eq!(classes.len(), 1);
    assert_eq!(classes[0].1.contents, "bar(a) { return a; }\nstatic make() { return 1; }\n");
    assert_eq!(classes[0].1.typescript, "  bar(a: number): number;\n");
}

#[test]
fn accessors_record_their_fields() {
    let mut classes: Vec<(String, ExportedClass)> = Vec::new();
    method(&mut classes, "x", AuxReceiverKind::Borrowed, AuxExportedMethodKind::Getter, "() { return this.a; }", Some("(): number"), Some("number"), &[], false);
    method(&mut classes, "x", AuxReceiverKind::Borrowed, AuxExportedMethodKind::Setter, "(v) { this.a = v; }", Some("(v: number)"), None, &["number | undefined"], true);
    let c = &classes[0].1;
    assert_eq!(c.contents, "get x() { return this.a; }\nset x(v) { this.a = v; }\n");
    assert_eq!(c.typescript, "");
    assert_eq!(c.readable_properties, vec!["x".to_string()]);
    assert_eq!(c.typescript_fields.len(), 1);
    let f = &c.typescript_fields[0];
    assert_eq!(f.name, "x");
    assert_eq!(f.getter.as_ref().unwrap().ty, "number");
    assert!(!f.getter.as_ref().unwrap().is_optional);
    assert_eq!(f.setter.as_ref().unwrap().ty, "number | undefined");
    assert!(f.setter.as_ref().unwrap().is_optional);
}

#[test]
fn ts_docs_are_kept_only_for_described_exports() {
    assert_eq!(described_ts_doc(false, &vec![None, None], "d".to_string()), None);
    assert_eq!(described_ts_doc(false, &vec![None, Some("x".to_string())], "d".to_string()), Some("d".to_string()));
    assert_eq!(described_ts_doc(true, &Vec::new(), "d".to_string()), Some("d".to_string()));
}

fn state() -> ExportState {
    ExportState {
        exports: Vec::new(),
        classes: Vec::new(),
        qualified_to_rust_name: Vec::new(),
        qualified_to_identifier: Vec::new(),
        identifiers: Vec::new(),
        typescript: String::new(),
    }
}

fn generated(code: &str, ts_sig: &str) -> JsFunction {
    JsFunction {
        ts_sig: ts_sig.to_string(),
        ts_arg_tys: vec!["number".to_string()],
        ts_ret_ty: Some("number".to_string()),
        js_doc: String::new(),
        ts_doc: String::new(),
        code: code.to_string(),
        might_be_optional_field: false,
        catch: false,
        log_error: false,
    }
}

fn export(kind: AuxExportKind, generate_typescript: bool) -> AuxExport {
    AuxExport {
        comments: String::new(),
        arg_descs: None,
        fn_ret_desc: None,
        js_namespace: None,
        generate_typescript,
        kind,
    }
}

#[test]
fn exports_go_where_their_kind_says() {
    let mut s = state();
    let f = export(AuxExportKind::Function("add".to_string()), true);
    assert!(place_export(&mut s, &f, generated("(a) { return a; }", "(a: number): number"), false).is_ok());
    assert_eq!(s.exports[0].0, "add");
    let c = export(AuxExportKind::Constructor("Foo".to_string()), false);
    assert!(place_export(&mut s, &c, generated("() {}", "()"), false).is_ok());
    let m = export(
        AuxExportKind::Method {
            class: "Foo".to_string(),
            name: "x".to_string(),
            receiver: AuxReceiverKind::Borrowed,
            kind: AuxExportedMethodKind::Getter,
        },
        true,
    );
    assert!(place_export(&mut s, &m, generated("() { return 1; }", "(): number"), false).is_ok());
    assert_eq!(s.classes.len(), 1);
    assert_eq!(s.classes[0].1.contents, "constructor() {}\nget x() { return 1; }\n");
    assert_eq!(s.classes[0].1.typescript_fields[0].getter.as_ref().unwrap().ty, "number");
    assert_eq!(place_export(&mut s, &c, generated("() {}", "()"), false), Err("found duplicate constructor for class `Foo`".to_string()));
}
