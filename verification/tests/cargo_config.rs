use wasm_bindgen_cli_support::benchmark::create_uri_and_name;
use wasm_bindgen_cli_support::cargo_config::{
    find_dependency_version, get_matching_shortcuts, handle_run_command,
    installed_binaries, sorted_unique, Config, Json, MetadataPackage,
};

fn lookup(c: &Config, name: &str) -> Option<(String, String)> {
    c.shortcuts
        .iter()
        .find(|(k, _)| k == name)
        .map(|(_, s)| (s.install_package.clone(), s.binary_name.clone()))
}

#[test]
fn default_config_has_the_builtin_shortcuts() {
    let c = Config::default_config();
    assert_eq!(c.shortcuts.len(), 4);
    assert_eq!(
        lookup(&c, "cli"),
        Some(("wasm-bindgen-cli".to_string(), "wasm-bindgen".to_string()))
    );
    assert_eq!(
        lookup(&c, "test-runner"),
        Some(("wasm-bindgen-cli".to_string(), "wasm-bindgen-test-runner".to_string()))
    );
    assert_eq!(
        lookup(&c, "build"),
        Some(("wasm-bindgen-build".to_string(), "wasm-bindgen-build".to_string()))
    );
    assert_eq!(c.metadata_mappings.len(), 2);
}

#[test]
fn merge_prefers_the_loaded_configuration() {
    let mut c = Config::default_config();
    let mut other = Config::empty();
    other.create_shortcut("cli".into(), "my-cli".into(), "mine".into());
    other.create_shortcut("extra".into(), "pkg".into(), "bin".into());
    other.set_mapping("my-cli".into(), "wasm-bindgen".into());
    c.merge(other);
    assert_eq!(c.shortcuts.len(), 5);
    assert_eq!(lookup(&c, "cli"), Some(("my-cli".to_string(), "mine".to_string())));
    assert_eq!(lookup(&c, "extra"), Some(("pkg".to_string(), "bin".to_string())));
    assert_eq!(c.metadata_mappings.len(), 3);
}

#[test]
fn matching_shortcuts_are_sorted() {
    let mut c = Config::default_config();
    c.create_shortcut("zz".into(), "wasm-bindgen-cli".into(), "wasm-bindgen".into());
    c.create_shortcut("aa".into(), "wasm-bindgen-cli".into(), "wasm-bindgen".into());
    assert_eq!(
        get_matching_shortcuts("wasm-bindgen-cli", "wasm-bindgen", &c),
        vec!["aa".to_string(), "cli".to_string(), "zz".to_string()]
    );
    assert!(get_matching_shortcuts("nope", "wasm-bindgen", &c).is_empty());
}

#[test]
fn deleting_shortcuts() {
    let mut c = Config::default_config();
    assert!(c.delete_shortcut("cli").is_ok());
    assert_eq!(lookup(&c, "cli"), None);
    assert_eq!(c.delete_shortcut("cli"), Err("Shortcut `cli` not found.".to_string()));
    assert_eq!(c.shortcuts.len(), 3);
}

#[test]
fn resolving_shortcuts() {
    let c = Config::default_config();
    assert_eq!(
        c.resolve_shortcut("test-runner"),
        Some((
            "wasm-bindgen-cli".to_string(),
            Some("wasm-bindgen".to_string()),
            "wasm-bindgen-test-runner".to_string()
        ))
    );
    assert_eq!(c.resolve_shortcut("missing"), None);
}

#[test]
fn run_argument_forms() {
    assert_eq!(handle_run_command(&vec!["bin".into()]), Ok((None, "bin".to_string())));
    assert_eq!(
        handle_run_command(&vec!["pkg".into(), "bin".into()]),
        Ok((Some("pkg".to_string()), "bin".to_string()))
    );
    assert_eq!(
        handle_run_command(&vec!["a".into(), "b".into(), "c".into()]),
        Err("Error: expected 1 or 2 positional arguments after install-package (binary-name, or version-package binary-name). Found: [\"a\", \"b\", \"c\"]".to_string())
    );
    assert_eq!(
        handle_run_command(&vec![]),
        Err("Error: expected 1 or 2 positional arguments after install-package (binary-name, or version-package binary-name). Found: []".to_string())
    );
}

#[test]
fn sorted_unique_names() {
    let v = vec!["b".to_string(), "a".to_string(), "b".to_string(), "ab".to_string()];
    assert_eq!(sorted_unique(v), vec!["a".to_string(), "ab".to_string(), "b".to_string()]);
}

#[test]
fn benchmark_uri() {
    assert_eq!(
        create_uri_and_name("benches/a.rs", "bench", "roundtrip"),
        ("benches/a.rs::bench::roundtrip".to_string(), "roundtrip".to_string())
    );
}

fn package(id: &str, name: &str, version: &str) -> MetadataPackage {
    MetadataPackage { id: id.to_string(), name: name.to_string(), version: version.to_string() }
}

#[test]
fn dependency_versions_come_from_the_resolved_graph() {
    let packages = vec![
        package("test-pkg 1.0.0 (registry+...)", "test-pkg", "1.0.0"),
        package("wasm-bindgen 0.2.92 (registry+...)", "wasm-bindgen", "0.2.92"),
    ];
    let nodes = vec![
        "test-pkg 1.0.0 (registry+...)".to_string(),
        "wasm-bindgen 0.2.92 (registry+...)".to_string(),
    ];
    assert_eq!(find_dependency_version(&packages, &nodes, "wasm-bindgen"), Ok("0.2.92".to_string()));
    assert_eq!(
        find_dependency_version(&packages, &nodes, "serde"),
        Err("Package `serde` not found in project dependencies.".to_string())
    );
    assert_eq!(
        find_dependency_version(&vec![package("test-pkg 1.0.0 (registry+...)", "test-pkg", "1.0.0")], &nodes, "wasm-bindgen"),
        Err("Package not found in metadata packages".to_string())
    );
}

#[test]
fn created_shortcuts_can_be_deleted_once() {
    let mut c = Config::default_config();
    c.create_shortcut("myshort".into(), "test-pkg".into(), "test-bin".into());
    assert_eq!(lookup(&c, "myshort"), Some(("test-pkg".to_string(), "test-bin".to_string())));
    assert_eq!(c.shortcuts.len(), 5);
    assert!(c.delete_shortcut("myshort").is_ok());
    assert_eq!(lookup(&c, "myshort"), None);
    assert_eq!(c.shortcuts.len(), 4);
    assert_eq!(c.delete_shortcut("myshort"), Err("Shortcut `myshort` not found.".to_string()));
}

#[test]
fn test_create_and_delete_shortcut() {
    let mut config = Config::default_config();
    config.create_shortcut("my-shortcut".to_string(), "pkg".to_string(), "bin".to_string());
    assert!(lookup(&config, "my-shortcut").is_some());
    assert!(config.delete_shortcut("my-shortcut").is_ok());
    assert!(lookup(&config, "my-shortcut").is_none());
}

#[test]
fn test_list_shortcuts() {
    let config = Config::default_config();
    assert!(lookup(&config, "build").is_some());
    assert!(lookup(&config, "cli").is_some());
    assert!(lookup(&config, "test-runner").is_some());
}

fn json_str(s: &str) -> Json {
    Json::Str(s.to_string())
}

fn record(bins: Vec<Json>) -> Json {
    Json::Object(vec![
        ("features".to_string(), Json::Array(Vec::new())),
        ("bins".to_string(), Json::Array(bins)),
    ])
}

#[test]
fn installed_binaries_are_the_recorded_bins_sorted_once_each() {
    let json = Json::Object(vec![
        ("v1".to_string(), Json::Object(Vec::new())),
        (
            "installs".to_string(),
            Json::Object(vec![
                ("wasm-bindgen-cli 0.2.100".to_string(), record(vec![json_str("wasm-bindgen"), json_str("wasm2es6js")])),
                (
                    "other 1.0.0".to_string(),
                    record(vec![json_str("wasm-bindgen"), Json::Number("3".to_string()), json_str("a-tool")]),
                ),
                ("broken 0.1.0".to_string(), Json::Null),
            ]),
        ),
    ]);
    assert_eq!(installed_binaries(&json), vec!["a-tool", "wasm-bindgen", "wasm2es6js"]);
}

#[test]
fn installed_binaries_without_installs_are_none() {
    assert!(installed_binaries(&Json::Object(Vec::new())).is_empty());
    assert!(installed_binaries(&Json::Array(vec![json_str("x")])).is_empty());
    let not_an_object = Json::Object(vec![("installs".to_string(), Json::Array(Vec::new()))]);
    assert!(installed_binaries(&not_an_object).is_empty());
}
