use wasm_bindgen_cli_support::intrinsic::{Intrinsic, IntrinsicEnv, OutputMode};
use wasm_bindgen_cli_support::js::{ExportEntry, ExportedClass};
use wasm_bindgen_cli_support::js_import::{
    import_function_code, import_never_log_error, insert_es_imports, memory_import_init, ts_self_types, AdapterJsImportKind, AuxImport, AuxValue, ImportEnv, ImportError, ImportJs,
    ImportNames, JsImport, JsImportName, ReexportError,
};

fn names() -> ImportNames {
    ImportNames {
        identifiers: Vec::new(),
        imported_names: Vec::new(),
        js_imports: Vec::new(),
        imports_post: String::new(),
    }
}

fn module_item(module: &str, name: &str, fields: &[&str]) -> JsImport {
    JsImport {
        name: JsImportName::Module { module: module.to_string(), name: name.to_string() },
        fields: fields.iter().map(|f| f.to_string()).collect(),
    }
}

fn global(name: &str, fields: &[&str]) -> JsImport {
    JsImport {
        name: JsImportName::Global { name: name.to_string() },
        fields: fields.iter().map(|f| f.to_string()).collect(),
    }
}

fn env(mode: OutputMode, split: bool) -> ImportEnv {
    ImportEnv {
        intrinsics: IntrinsicEnv {
            mode,
            wrapped_js_tag: false,
            memory_count: 1,
            memory_export: "memory".to_string(),
            function_table_export: None,
            externref_table_export: None,
        },
        node_module: false,
        split_linked_modules: split,
    }
}

struct Written {
    result: Result<ImportJs, ImportError>,
    prelude: String,
    names: ImportNames,
    classes: Vec<(String, ExportedClass)>,
}

fn write_with(
    names: ImportNames,
    classes: Vec<(String, ExportedClass)>,
    import: AuxImport,
    kind: AdapterJsImportKind,
    args: &[&str],
    variadic: bool,
    e: &ImportEnv,
) -> Written {
    let mut names = names;
    let mut classes = classes;
    let mut prelude = String::new();
    let args: Vec<String> = args.iter().map(|a| a.to_string()).collect();
    let q2r: Vec<(String, String)> = Vec::new();
    let result = names.invoke_import(&mut classes, &q2r, &import, kind, &args, variadic, &mut prelude, e);
    Written { result, prelude, names, classes }
}

fn write(import: AuxImport, kind: AdapterJsImportKind, args: &[&str], variadic: bool) -> Written {
    write_with(names(), Vec::new(), import, kind, args, variadic, &env(OutputMode::Web, false))
}

fn expr(w: &Written) -> String {
    match &w.result {
        Ok(j) => j.expr.clone(),
        Err(e) => panic!("unexpected error {e:?}"),
    }
}

#[test]
fn module_items_get_an_identifier_and_an_es_import() {
    let mut n = names();
    let r = n.import_name(&module_item("./foo.js", "bar", &["baz"]));
    assert_eq!(r.unwrap(), "bar.baz");
    assert_eq!(n.js_imports.len(), 1);
    assert_eq!(n.js_imports[0].0, "./foo.js");
    assert_eq!(n.js_imports[0].1, vec![("bar".to_string(), None)]);
    // A second use reuses the name given first.
    let again = n.import_name(&module_item("./foo.js", "bar", &[]));
    assert_eq!(again.unwrap(), "bar");
    assert_eq!(n.js_imports[0].1.len(), 1);
    assert_eq!(n.imported_names.len(), 1);
}

#[test]
fn the_same_name_from_another_module_is_renamed() {
    let mut n = names();
    assert_eq!(n.import_name(&module_item("./a.js", "bar", &[])).unwrap(), "bar");
    assert_eq!(n.import_name(&module_item("./b.js", "bar", &[])).unwrap(), "bar2");
    assert_eq!(n.js_imports.len(), 2);
    assert_eq!(n.js_imports[1].0, "./b.js");
    assert_eq!(n.js_imports[1].1, vec![("bar".to_string(), Some("bar2".to_string()))]);
}

#[test]
fn two_items_of_one_module_share_its_import() {
    let mut n = names();
    n.import_name(&module_item("./a.js", "x", &[])).unwrap();
    n.import_name(&module_item("./a.js", "y", &[])).unwrap();
    assert_eq!(n.js_imports.len(), 1);
    assert_eq!(n.js_imports[0].1, vec![("x".to_string(), None), ("y".to_string(), None)]);
}

#[test]
fn a_global_is_used_as_it_is() {
    let mut n = names();
    assert_eq!(n.import_name(&global("Math", &["max"])).unwrap(), "Math.max");
    assert_eq!(n.identifiers, vec![("Math".to_string(), 1)]);
    assert!(n.js_imports.is_empty());
}

#[test]
fn a_global_that_is_also_an_identifier_comes_from_two_locations() {
    let mut n = names();
    n.identifiers.push(("Foo".to_string(), 1));
    match n.import_name(&global("Foo", &[])) {
        Err(ImportError::TwoLocations(name)) => assert_eq!(name, "Foo"),
        other => panic!("unexpected {other:?}"),
    }
    assert!(n.imported_names.is_empty());
    assert_eq!(n.identifiers, vec![("Foo".to_string(), 2)]);
}

#[test]
fn a_vendor_prefixed_global_picks_the_form_the_engine_has() {
    let mut n = names();
    let imp = JsImport {
        name: JsImportName::VendorPrefixed {
            name: "AudioContext".to_string(),
            prefixes: vec!["webkit".to_string()],
        },
        fields: Vec::new(),
    };
    assert_eq!(n.import_name(&imp).unwrap(), "lAudioContext");
    assert_eq!(
        n.imports_post,
        "const lAudioContext = (typeof AudioContext !== 'undefined' ? AudioContext : \
         (typeof webkitAudioContext !== 'undefined' ? webkitAudioContext : undefined));\n"
    );
}

#[test]
fn a_bare_value_is_called_constructed_or_called_as_a_method() {
    let f = || AuxImport::Value(AuxValue::Bare(global("Math", &["max"])));
    assert_eq!(expr(&write(f(), AdapterJsImportKind::Normal, &["a", "b"], false)), "Math.max(a, b)");
    assert_eq!(expr(&write(f(), AdapterJsImportKind::Constructor, &["a"], false)), "new Math.max(a)");
    let m = write(f(), AdapterJsImportKind::Method, &["t", "a"], false);
    assert_eq!(expr(&m), "Math.max.call(t, a)");
    assert!(!m.result.unwrap().inherited_descriptor);
}

#[test]
fn variadic_calls_spread_their_last_argument() {
    let f = || AuxImport::Value(AuxValue::Bare(global("f", &[])));
    assert_eq!(expr(&write(f(), AdapterJsImportKind::Normal, &["a", "b"], true)), "f(a, ...b)");
    assert_eq!(expr(&write(f(), AdapterJsImportKind::Normal, &["b"], true)), "f(...b)");
    let w = write(f(), AdapterJsImportKind::Constructor, &[], true);
    assert!(matches!(w.result, Err(ImportError::VariadicWithoutArguments)));
    // The value is named before the arguments are found missing.
    assert_eq!(w.names.imported_names.len(), 1);
}

#[test]
fn accessors_are_read_through_the_inherited_descriptor() {
    let get = write(
        AuxImport::Value(AuxValue::Getter(global("Foo", &[]), "bar".to_string())),
        AdapterJsImportKind::Method,
        &["x"],
        false,
    );
    assert_eq!(expr(&get), "GetOwnOrInheritedPropertyDescriptor(Foo.prototype, 'bar').get.call(x)");
    assert!(get.result.unwrap().inherited_descriptor);
    let set = write(
        AuxImport::Value(AuxValue::ClassSetter(global("Foo", &[]), "bar".to_string())),
        AdapterJsImportKind::Method,
        &["x", "v"],
        false,
    );
    assert_eq!(expr(&set), "GetOwnOrInheritedPropertyDescriptor(Foo, 'bar').set.call(x, v)");
}

#[test]
fn accessors_cannot_be_constructed_or_called_freely() {
    let c = write(
        AuxImport::Value(AuxValue::Getter(global("Foo", &[]), "bar".to_string())),
        AdapterJsImportKind::Constructor,
        &[],
        false,
    );
    assert!(matches!(c.result, Err(ImportError::InvalidConstructor)));
    assert!(c.names.imported_names.is_empty());
    let n = write(
        AuxImport::Value(AuxValue::Setter(global("Foo", &[]), "bar".to_string())),
        AdapterJsImportKind::Normal,
        &["x"],
        false,
    );
    assert!(matches!(n.result, Err(ImportError::InvalidFreeFunction)));
}

#[test]
fn a_method_of_a_class_is_called_on_it() {
    let w = write(
        AuxImport::ValueWithThis(global("Foo", &[]), "bar".to_string()),
        AdapterJsImportKind::Normal,
        &["a"],
        false,
    );
    assert_eq!(expr(&w), "Foo.bar(a)");
    let k = write(
        AuxImport::ValueWithThis(global("Foo", &[]), "kebab-case".to_string()),
        AdapterJsImportKind::Normal,
        &[],
        false,
    );
    assert_eq!(expr(&k), "Foo[\"kebab-case\"]()");
}

#[test]
fn instanceof_checks_go_to_the_prelude() {
    let w = write(AuxImport::Instanceof(global("Foo", &[])), AdapterJsImportKind::Normal, &["x"], false);
    assert_eq!(expr(&w), "result");
    assert_eq!(
        w.prelude,
        "let result;\n                    try {\n                        result = x instanceof Foo;\n                    } catch (_) {\n                        result = false;\n                    }\n                    "
    );
}

#[test]
fn statics_read_their_fields_after_the_name() {
    let plain = write(
        AuxImport::Static { js: global("Foo", &["a", "b"]), optional: false },
        AdapterJsImportKind::Normal,
        &[],
        false,
    );
    assert_eq!(expr(&plain), "Foo.a.b");
    let optional = write(
        AuxImport::Static { js: global("Foo", &["a", "b"]), optional: true },
        AdapterJsImportKind::Normal,
        &[],
        false,
    );
    assert_eq!(expr(&optional), "typeof Foo === 'undefined' ? null : Foo?.a?.b");
    // The name is given to the value itself, without its fields.
    assert_eq!(optional.names.imported_names[0].1, "Foo");
}

#[test]
fn strings_become_escaped_template_literals() {
    let w = write(AuxImport::String("a`b$c\\d".to_string()), AdapterJsImportKind::Normal, &[], false);
    assert_eq!(expr(&w), "`a\\`b\\$c\\\\d`");
}

#[test]
fn casts_pass_their_argument_on() {
    let w = write(
        AuxImport::Cast { sig_comment: "u32 -> f64".to_string() },
        AdapterJsImportKind::Normal,
        &["arg0"],
        false,
    );
    assert_eq!(expr(&w), "arg0");
    assert_eq!(w.prelude, "// Cast intrinsic for `u32 -> f64`.\n");
}

#[test]
fn structural_methods_are_called_on_their_first_argument() {
    let w = write(AuxImport::StructuralMethod("foo".to_string()), AdapterJsImportKind::Normal, &["obj", "x"], false);
    assert_eq!(expr(&w), "obj.foo(x)");
    let v = write(AuxImport::StructuralMethod("foo".to_string()), AdapterJsImportKind::Normal, &["obj"], true);
    assert!(matches!(v.result, Err(ImportError::VariadicWithoutArguments)));
    let none = write(AuxImport::StructuralMethod("foo".to_string()), AdapterJsImportKind::Normal, &[], false);
    assert!(matches!(none.result, Err(ImportError::NoReceiver)));
}

#[test]
fn structural_properties_and_indexing() {
    let n = AdapterJsImportKind::Normal;
    assert_eq!(expr(&write(AuxImport::StructuralGetter("a".to_string()), n, &["o"], false)), "o.a");
    assert_eq!(expr(&write(AuxImport::StructuralSetter("a".to_string()), n, &["o", "v"], false)), "o.a = v");
    assert_eq!(
        expr(&write(AuxImport::StructuralClassGetter(global("C", &[]), "a".to_string()), n, &[], false)),
        "C.a"
    );
    assert_eq!(
        expr(&write(AuxImport::StructuralClassSetter(global("C", &[]), "a".to_string()), n, &["v"], false)),
        "C.a = v"
    );
    assert_eq!(expr(&write(AuxImport::IndexingGetterOfClass(global("C", &[])), n, &["i"], false)), "C[i]");
    assert_eq!(expr(&write(AuxImport::IndexingGetterOfObject, n, &["o", "i"], false)), "o[i]");
    assert_eq!(expr(&write(AuxImport::IndexingSetterOfClass(global("C", &[])), n, &["i", "v"], false)), "C[i] = v");
    assert_eq!(expr(&write(AuxImport::IndexingSetterOfObject, n, &["o", "i", "v"], false)), "o[i] = v");
    assert_eq!(
        expr(&write(AuxImport::IndexingDeleterOfClass(global("C", &[])), n, &["i"], false)),
        "delete C[i]"
    );
    assert_eq!(expr(&write(AuxImport::IndexingDeleterOfObject, n, &["o", "i"], false)), "delete o[i]");
}

#[test]
fn exported_classes_are_wrapped_and_unwrapped_under_one_identifier() {
    let w = write(AuxImport::WrapInExportedClass("Foo".to_string()), AdapterJsImportKind::Normal, &["ptr"], false);
    assert_eq!(expr(&w), "Foo.__wrap(ptr)");
    assert_eq!(w.classes.len(), 1);
    assert_eq!(w.classes[0].0, "Foo");
    assert_eq!(w.classes[0].1.identifier, "Foo");
    assert!(w.classes[0].1.wrap_needed && !w.classes[0].1.unwrap_needed);
    let u = write_with(
        w.names,
        w.classes,
        AuxImport::UnwrapExportedClass("Foo".to_string()),
        AdapterJsImportKind::Normal,
        &["x"],
        false,
        &env(OutputMode::Web, false),
    );
    assert_eq!(expr(&u), "Foo.__unwrap(x)");
    assert_eq!(u.classes.len(), 1);
    assert!(u.classes[0].1.wrap_needed && u.classes[0].1.unwrap_needed);
}

#[test]
fn a_class_named_like_a_taken_identifier_is_renamed() {
    let mut n = names();
    n.identifiers.push(("Array".to_string(), 1));
    let w = write_with(
        n,
        Vec::new(),
        AuxImport::WrapInExportedClass("Array".to_string()),
        AdapterJsImportKind::Normal,
        &["p"],
        false,
        &env(OutputMode::Web, false),
    );
    assert_eq!(expr(&w), "Array2.__wrap(p)");
}

#[test]
fn intrinsics_are_written_as_intrinsics() {
    let w = write(AuxImport::Intrinsic(Intrinsic::JsvalEq), AdapterJsImportKind::Normal, &["a", "b"], false);
    assert_eq!(expr(&w), "a === b");
}

#[test]
fn split_linked_modules_are_resolved_against_the_output() {
    let link = || AuxImport::LinkTo("snippets/x.js".to_string(), None);
    let n = AdapterJsImportKind::Normal;
    let web = write_with(names(), Vec::new(), link(), n, &[], false, &env(OutputMode::Web, true));
    assert_eq!(expr(&web), "new URL('snippets/x.js', import.meta.url).toString()");
    assert_eq!(web.prelude, "");
    let node = write_with(names(), Vec::new(), link(), n, &[], false, &env(OutputMode::Node, true));
    assert_eq!(expr(&node), "new URL('snippets/x.js', require('url').pathToFileURL(__filename)).toString()");
    let mut esm = env(OutputMode::Node, true);
    esm.node_module = true;
    let node_esm = write_with(names(), Vec::new(), link(), n, &[], false, &esm);
    assert_eq!(expr(&node_esm), "new URL('snippets/x.js', import.meta.url).toString()");
    let nm = write_with(names(), Vec::new(), link(), n, &[], false, &env(OutputMode::NoModules, true));
    assert_eq!(expr(&nm), "new URL('snippets/x.js', script_src).toString()");
    assert!(nm.prelude.starts_with("if (script_src === undefined) {"));
    assert!(nm.prelude.contains("To fix this, disable `--split-linked-modules`."));
}

#[test]
fn inline_linked_modules_become_object_urls() {
    let w = write(
        AuxImport::LinkTo("snippets/x.js".to_string(), Some("let a = `b`;".to_string())),
        AdapterJsImportKind::Normal,
        &[],
        false,
    );
    assert_eq!(w.prelude, "const val = `let a = \\`b\\`;`;\n");
    assert_eq!(
        expr(&w),
        "typeof URL.createObjectURL === 'undefined' ? \"data:application/javascript,\" + encodeURIComponent(val) : URL.createObjectURL(new Blob([val], { type: \"text/javascript\" }))"
    );
    let missing = write(
        AuxImport::LinkTo("snippets/x.js".to_string(), None),
        AdapterJsImportKind::Normal,
        &[],
        false,
    );
    match missing.result {
        Err(ImportError::LinkNotEmbedded(p)) => assert_eq!(p, "snippets/x.js"),
        other => panic!("unexpected {other:?}"),
    }
}

#[test]
fn a_reexport_names_the_item_and_exports_it() {
    let mut n = names();
    let mut exports: Vec<(String, ExportEntry)> = Vec::new();
    let r = n.reexport(&mut exports, "bar", &module_item("./foo.js", "bar", &[]), true);
    assert!(r.is_ok());
    assert_eq!(exports.len(), 1);
    assert_eq!(exports[0].0, "bar");
    match &exports[0].1 {
        ExportEntry::Definition(d) => {
            assert_eq!(d.identifier, "bar");
            assert_eq!(d.definition, "");
            assert_eq!(d.ts_definition, "let bar: unknown;\n");
            assert!(d.comments.is_none() && !d.private);
        }
        _ => panic!("expected a definition"),
    }
    // The same export name cannot be defined twice.
    let again = n.reexport(&mut exports, "bar", &module_item("./other.js", "baz", &[]), false);
    assert!(matches!(again, Err(ReexportError::Export(_))));
    assert_eq!(exports.len(), 1);
}

#[test]
fn a_reexport_of_a_global_from_two_locations_fails() {
    let mut n = names();
    n.identifiers.push(("Foo".to_string(), 1));
    let mut exports: Vec<(String, ExportEntry)> = Vec::new();
    let r = n.reexport(&mut exports, "Foo", &global("Foo", &[]), false);
    assert!(matches!(r, Err(ReexportError::Import(ImportError::TwoLocations(_)))));
    assert!(exports.is_empty());
}

#[test]
fn an_imported_memory_is_created_with_its_limits() {
    assert_eq!(memory_import_init(17, None, false, true), "new WebAssembly.Memory({initial:17})");
    assert_eq!(
        memory_import_init(17, Some(16384), true, false),
        "memory || new WebAssembly.Memory({initial:17,maximum:16384,shared:true})"
    );
}

#[test]
fn the_self_types_comment_is_for_module_outputs_with_typescript() {
    assert_eq!(
        ts_self_types(true, OutputMode::Web, "pkg").as_deref(),
        Some("/* @ts-self-types=\"./pkg.d.ts\" */\n")
    );
    assert_eq!(ts_self_types(false, OutputMode::Web, "pkg"), None);
    assert_eq!(ts_self_types(true, OutputMode::NoModules, "pkg"), None);
    assert_eq!(ts_self_types(true, OutputMode::Bundler, "pkg"), None);
}

#[test]
fn es_imports_go_after_the_self_types_comment() {
    assert_eq!(
        insert_es_imports("/* @ts-self-types=\"./pkg.d.ts\" */\nlet wasm;\n", "import { a } from 'b';\n"),
        "/* @ts-self-types=\"./pkg.d.ts\" */\nimport { a } from 'b';\n\nlet wasm;\n"
    );
    assert_eq!(insert_es_imports("let wasm;\n", "import x from 'y';"), "import x from 'y';\nlet wasm;\n");
}

#[test]
fn imported_functions_are_wrapped_by_how_they_fail() {
    assert_eq!(
        import_function_code("(a) { f(a); }", true, false, true),
        ("function() { return handleError(function (a) { f(a); }, arguments); }".to_string(), true)
    );
    assert_eq!(
        import_function_code("(a) { f(a); }", true, true, true),
        ("function() { return logError(function (a) { f(a); }, arguments); }".to_string(), false)
    );
    assert_eq!(import_function_code("(a) { f(a); }", false, false, false), ("function(a) { f(a); }".to_string(), false));
    assert!(import_never_log_error(&AuxImport::Intrinsic(Intrinsic::JsvalEq)));
    assert!(!import_never_log_error(&AuxImport::IndexingGetterOfObject));
}
