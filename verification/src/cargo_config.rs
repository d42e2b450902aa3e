//! The configuration of the `cargo wasm-bindgen` subcommand (its shortcuts
//! and the metadata mappings of packages) and the decisions the subcommand
//! takes from it and from its arguments.
//!
//! Each map is kept as a list of key/value pairs whose keys are distinct;
//! its meaning is the map from each key to its value.

use vstd::prelude::*;
use vstd::utf8::encode_utf8;
use crate::strings::{
    bytes_of, debug_quoted, insert_sorted, push_debug_quoted, push_text, strictly_sorted,
    text_is,
};
use crate::keyed::{entries, entries_map, find_key, has_distinct_keys, keys_distinct, lemma_entries_map, remove_entry, set_entry};

verus! {

/// What a shortcut runs: a binary of an installed package.
pub struct Shortcut {
    pub install_package: String,
    pub binary_name: String,
}

impl View for Shortcut {
    type V = (Seq<char>, Seq<char>);

    open spec fn view(&self) -> (Seq<char>, Seq<char>) {
        (self.install_package@, self.binary_name@)
    }
}

/// The configuration: shortcuts by name, and for an install package the
/// package whose version in the project's dependencies selects the
/// version to install.
pub struct Config {
    pub shortcuts: Vec<(String, Shortcut)>,
    pub metadata_mappings: Vec<(String, String)>,
}


impl Config {
    /// Whether the keys of each map are distinct.
    pub open spec fn wf(&self) -> bool {
        keys_distinct(entries(self.shortcuts@)) && keys_distinct(entries(self.metadata_mappings@))
    }

    /// The shortcuts: name to install package and binary name.
    pub open spec fn shortcut_map(&self) -> Map<Seq<char>, (Seq<char>, Seq<char>)> {
        entries_map(entries(self.shortcuts@))
    }

    /// The metadata mappings: install package to version package.
    pub open spec fn mapping_map(&self) -> Map<Seq<char>, Seq<char>> {
        entries_map(entries(self.metadata_mappings@))
    }

    /// Whether the keys of each map are distinct (see [`Config::wf`]).
    pub fn is_wf(&self) -> (r: bool)
        ensures
            r == self.wf(),
    {
        has_distinct_keys(&self.shortcuts) && has_distinct_keys(&self.metadata_mappings)
    }

    /// An empty configuration.
    pub fn empty() -> (c: Config)
        ensures
            c.wf(),
            c.shortcut_map() == Map::<Seq<char>, (Seq<char>, Seq<char>)>::empty(),
            c.mapping_map() == Map::<Seq<char>, Seq<char>>::empty(),
    {
        let c = Config { shortcuts: Vec::new(), metadata_mappings: Vec::new() };
        assert(entries(c.shortcuts@) =~= Seq::empty());
        assert(entries(c.metadata_mappings@) =~= Seq::empty());
        c
    }

    /// Sets shortcut `name` to run `binary_name` of `install_package`.
    pub fn create_shortcut(&mut self, name: String, install_package: String, binary_name: String)
        requires
            old(self).wf(),
        ensures
            final(self).wf(),
            final(self).shortcut_map() == old(self).shortcut_map().insert(
                name@,
                (install_package@, binary_name@),
            ),
            final(self).mapping_map() == old(self).mapping_map(),
    {
        set_entry(&mut self.shortcuts, name, Shortcut { install_package, binary_name });
    }

    /// Sets the version package of `install_package`.
    pub fn set_mapping(&mut self, install_package: String, version_package: String)
        requires
            old(self).wf(),
        ensures
            final(self).wf(),
            final(self).mapping_map() == old(self).mapping_map().insert(
                install_package@,
                version_package@,
            ),
            final(self).shortcut_map() == old(self).shortcut_map(),
    {
        set_entry(&mut self.metadata_mappings, install_package, version_package);
    }

    /// The built-in shortcuts (`build`, `cli`, `test-runner`, `wasm2es6js`)
    /// and metadata mappings (both wasm-bindgen CLI packages take the
    /// version of `wasm-bindgen`).
    pub fn default_config() -> (c: Config)
        ensures
            c.wf(),
            c.shortcut_map() == Map::<Seq<char>, (Seq<char>, Seq<char>)>::empty().insert(
                "build"@,
                ("wasm-bindgen-build"@, "wasm-bindgen-build"@),
            ).insert("cli"@, ("wasm-bindgen-cli"@, "wasm-bindgen"@)).insert(
                "test-runner"@,
                ("wasm-bindgen-cli"@, "wasm-bindgen-test-runner"@),
            ).insert("wasm2es6js"@, ("wasm-bindgen-cli"@, "wasm2es6js"@)),
            c.mapping_map() == Map::<Seq<char>, Seq<char>>::empty().insert(
                "wasm-bindgen-cli"@,
                "wasm-bindgen"@,
            ).insert("wasm-bindgen-build"@, "wasm-bindgen"@),
    {
        let mut c = Config::empty();
        c.create_shortcut(text("build"), text("wasm-bindgen-build"), text("wasm-bindgen-build"));
        c.create_shortcut(text("cli"), text("wasm-bindgen-cli"), text("wasm-bindgen"));
        c.create_shortcut(text("test-runner"), text("wasm-bindgen-cli"), text("wasm-bindgen-test-runner"));
        c.create_shortcut(text("wasm2es6js"), text("wasm-bindgen-cli"), text("wasm2es6js"));
        c.set_mapping(text("wasm-bindgen-cli"), text("wasm-bindgen"));
        c.set_mapping(text("wasm-bindgen-build"), text("wasm-bindgen"));
        c
    }

    /// Adds the shortcuts and metadata mappings of `other`, which replace
    /// those of the same names.
    pub fn merge(&mut self, other: Config)
        requires
            old(self).wf(),
            other.wf(),
        ensures
            final(self).wf(),
            final(self).shortcut_map() == old(self).shortcut_map().union_prefer_right(other.shortcut_map()),
            final(self).mapping_map() == old(self).mapping_map().union_prefer_right(other.mapping_map()),
    {
        let ghost s0 = self.shortcut_map();
        let ghost m0 = self.mapping_map();
        let ghost os = entries(other.shortcuts@);
        let ghost om = entries(other.metadata_mappings@);
        proof {
            assert(os.take(0) =~= Seq::<(Seq<char>, (Seq<char>, Seq<char>))>::empty());
            assert(om.take(0) =~= Seq::<(Seq<char>, Seq<char>)>::empty());
            assert(s0.union_prefer_right(entries_map(os.take(0))) =~= s0);
            assert(m0.union_prefer_right(entries_map(om.take(0))) =~= m0);
        }
        let mut i: usize = 0;
        while i < other.shortcuts.len()
            invariant
                self.wf(),
                self.mapping_map() == m0,
                os == entries(other.shortcuts@),
                i <= os.len(),
                self.shortcut_map() == s0.union_prefer_right(entries_map(os.take(i as int))),
            decreases os.len() - i,
        {
            let ghost before = self.shortcut_map();
            let k = text(other.shortcuts[i].0.as_str());
            let sc = Shortcut {
                install_package: text(other.shortcuts[i].1.install_package.as_str()),
                binary_name: text(other.shortcuts[i].1.binary_name.as_str()),
            };
            self.create_shortcut(k, sc.install_package, sc.binary_name);
            proof {
                assert(os.take(i as int + 1).drop_last() =~= os.take(i as int));
                assert(os.take(i as int + 1).last() == os[i as int]);
                assert(self.shortcut_map() =~= s0.union_prefer_right(entries_map(os.take(i as int + 1))));
            }
            i = i + 1;
        }
        proof {
            assert(os.take(i as int) =~= os);
        }
        let mut j: usize = 0;
        while j < other.metadata_mappings.len()
            invariant
                self.wf(),
                self.shortcut_map() == s0.union_prefer_right(entries_map(os)),
                om == entries(other.metadata_mappings@),
                j <= om.len(),
                self.mapping_map() == m0.union_prefer_right(entries_map(om.take(j as int))),
            decreases om.len() - j,
        {
            let k = text(other.metadata_mappings[j].0.as_str());
            let v = text(other.metadata_mappings[j].1.as_str());
            self.set_mapping(k, v);
            proof {
                assert(om.take(j as int + 1).drop_last() =~= om.take(j as int));
                assert(om.take(j as int + 1).last() == om[j as int]);
                assert(self.mapping_map() =~= m0.union_prefer_right(entries_map(om.take(j as int + 1))));
            }
            j = j + 1;
        }
        proof {
            assert(os.take(os.len() as int) =~= os);
            assert(om.take(om.len() as int) =~= om);
        }
    }
}

/// The names of the shortcuts that run `binary` of `package`, as bytes.
pub open spec fn matching_names(c: Config, package: Seq<char>, binary: Seq<char>) -> Set<Seq<u8>> {
    Set::new(
        |b: Seq<u8>|
            exists|k: Seq<char>|
                c.shortcut_map().contains_key(k) && c.shortcut_map()[k] == (package, binary)
                    && b == encode_utf8(k),
    )
}

/// The names of the shortcuts that run `binary_name` of `pkg_name`, in
/// increasing order.
pub fn get_matching_shortcuts(pkg_name: &str, binary_name: &str, config: &Config) -> (r: Vec<String>)
    requires
        config.wf(),
    ensures
        strictly_sorted(bytes_of(r@)),
        bytes_of(r@).to_set() == matching_names(*config, pkg_name@, binary_name@),
{
    let ghost es = entries(config.shortcuts@);
    let mut out: Vec<String> = Vec::new();
    let mut i: usize = 0;
    proof {
        assert(bytes_of(out@).to_set() =~= Set::empty());
    }
    while i < config.shortcuts.len()
        invariant
            config.wf(),
            es == entries(config.shortcuts@),
            i <= es.len(),
            strictly_sorted(bytes_of(out@)),
            bytes_of(out@).to_set() == Set::new(
                |b: Seq<u8>|
                    exists|j: int|
                        0 <= j < i && (#[trigger] es[j]).1 == (pkg_name@, binary_name@) && b
                            == encode_utf8(es[j].0),
            ),
        decreases es.len() - i,
    {
        let ghost before = bytes_of(out@).to_set();
        let e = &config.shortcuts[i];
        if text_is(e.1.install_package.as_str(), pkg_name) && text_is(e.1.binary_name.as_str(), binary_name) {
            insert_sorted(&mut out, text(e.0.as_str()));
        }
        proof {
            assert(bytes_of(out@).to_set() =~= Set::new(
                |b: Seq<u8>|
                    exists|j: int|
                        0 <= j < i + 1 && (#[trigger] es[j]).1 == (pkg_name@, binary_name@) && b
                            == encode_utf8(es[j].0),
            )) by {
                assert forall|b: Seq<u8>| bytes_of(out@).to_set().contains(b) implies exists|j: int|
                    0 <= j < i + 1 && (#[trigger] es[j]).1 == (pkg_name@, binary_name@) && b == encode_utf8(es[j].0) by {
                    if !before.contains(b) {
                        assert(es[i as int].1 == (pkg_name@, binary_name@) && b == encode_utf8(es[i as int].0));
                    }
                }
            }
        }
        i = i + 1;
    }
    proof {
        assert forall|b: Seq<u8>| #[trigger] matching_names(*config, pkg_name@, binary_name@).contains(b)
            == bytes_of(out@).to_set().contains(b) by {
            if matching_names(*config, pkg_name@, binary_name@).contains(b) {
                let k = choose|k: Seq<char>| config.shortcut_map().contains_key(k) && config.shortcut_map()[k]
                    == (pkg_name@, binary_name@) && b == encode_utf8(k);
                lemma_entries_map(es, k);
                let j = choose|j: int| 0 <= j < es.len() && (#[trigger] es[j]).0 == k;
                assert(es[j].1 == (pkg_name@, binary_name@));
            }
            if bytes_of(out@).to_set().contains(b) {
                let j = choose|j: int| 0 <= j < es.len() && (#[trigger] es[j]).1 == (pkg_name@, binary_name@)
                    && b == encode_utf8(es[j].0);
                lemma_entries_map(es, es[j].0);
            }
        }
        assert(bytes_of(out@).to_set() =~= matching_names(*config, pkg_name@, binary_name@));
    }
    out
}

/// The names in increasing order, each once.
pub fn sorted_unique(names: Vec<String>) -> (r: Vec<String>)
    ensures
        strictly_sorted(bytes_of(r@)),
        bytes_of(r@).to_set() == bytes_of(names@).to_set(),
{
    let mut out: Vec<String> = Vec::new();
    let mut i: usize = 0;
    let ghost nb = bytes_of(names@);
    proof {
        assert(bytes_of(out@).to_set() =~= nb.take(0).to_set());
    }
    while i < names.len()
        invariant
            nb == bytes_of(names@),
            i <= names@.len(),
            strictly_sorted(bytes_of(out@)),
            bytes_of(out@).to_set() == nb.take(i as int).to_set(),
        decreases names@.len() - i,
    {
        insert_sorted(&mut out, text(names[i].as_str()));
        proof {
            assert(nb.take(i as int + 1) =~= nb.take(i as int).push(nb[i as int]));
            nb.take(i as int).lemma_push_to_set_commute(nb[i as int]);
        }
        i = i + 1;
    }
    proof {
        assert(nb.take(i as int) =~= nb);
    }
    out
}

/// The message when a shortcut to delete is not there.
pub open spec fn missing_shortcut_message(name: Seq<char>) -> Seq<char> {
    "Shortcut `"@ + name + "` not found."@
}

impl Config {
    /// Deletes shortcut `name`; fails if there is no such shortcut.
    pub fn delete_shortcut(&mut self, name: &str) -> (r: Result<(), String>)
        requires
            old(self).wf(),
        ensures
            final(self).wf(),
            r is Ok <==> old(self).shortcut_map().contains_key(name@),
            r matches Err(m) ==> m@ == missing_shortcut_message(name@),
            final(self).shortcut_map() == old(self).shortcut_map().remove(name@),
            final(self).mapping_map() == old(self).mapping_map(),
    {
        if remove_entry(&mut self.shortcuts, name) {
            Ok(())
        } else {
            let mut m = String::new();
            push_text(&mut m, "Shortcut `");
            push_text(&mut m, name);
            push_text(&mut m, "` not found.");
            Err(m)
        }
    }

    /// What shortcut `name` runs: its install package, the package whose
    /// version selects the version to install (if mapped) and the binary.
    pub fn resolve_shortcut(&self, name: &str) -> (r: Option<(String, Option<String>, String)>)
        requires
            self.wf(),
        ensures
            match r {
                Some((p, v, b)) => self.shortcut_map().contains_key(name@) && (p@, b@) == self.shortcut_map()[name@]
                    && match v {
                    Some(vp) => self.mapping_map().contains_key(p@) && vp@ == self.mapping_map()[p@],
                    None => !self.mapping_map().contains_key(p@),
                },
                None => !self.shortcut_map().contains_key(name@),
            },
    {
        proof {
            lemma_entries_map(entries(self.shortcuts@), name@);
        }
        match find_key(&self.shortcuts, name) {
            None => None,
            Some(i) => {
                let sc = &self.shortcuts[i].1;
                assert(entries(self.shortcuts@)[i as int].0 == name@);
                let ghost p = sc.install_package@;
                proof {
                    lemma_entries_map(entries(self.metadata_mappings@), p);
                }
                let v = match find_key(&self.metadata_mappings, sc.install_package.as_str()) {
                    Some(j) => {
                        assert(entries(self.metadata_mappings@)[j as int].0 == p);
                        Some(text(self.metadata_mappings[j].1.as_str()))
                    },
                    None => None,
                };
                Some((text(sc.install_package.as_str()), v, text(sc.binary_name.as_str())))
            },
        }
    }
}

/// Strings written as `{:?}` writes a list of them.
pub open spec fn debug_items(v: Seq<Seq<char>>) -> Seq<char>
    decreases v.len(),
{
    if v.len() == 0 {
        seq![]
    } else if v.len() == 1 {
        debug_quoted(v[0])
    } else {
        debug_items(v.drop_last()) + ", "@ + debug_quoted(v.last())
    }
}

/// The views of a list of strings.
pub open spec fn texts(v: Seq<String>) -> Seq<Seq<char>> {
    v.map_values(|s: String| s@)
}

/// The message when `--run` gets neither one nor two positional arguments.
pub open spec fn run_arity_message(rest: Seq<Seq<char>>) -> Seq<char> {
    "Error: expected 1 or 2 positional arguments after install-package (binary-name, or version-package binary-name). Found: "@
        + seq!['['] + debug_items(rest) + seq![']']
}

/// Splits the positional arguments of `--run` after the install package:
/// either the binary name alone, or the version package and the binary
/// name.
pub fn handle_run_command(rest: &Vec<String>) -> (r: Result<(Option<String>, String), String>)
    ensures
        rest@.len() == 1 ==> (r matches Ok((None, b)) && b@ == rest@[0]@),
        rest@.len() == 2 ==> (r matches Ok((Some(v), b)) && v@ == rest@[0]@ && b@ == rest@[1]@),
        rest@.len() != 1 && rest@.len() != 2 ==> (r matches Err(m) && m@ == run_arity_message(texts(rest@))),
{
    if rest.len() == 1 {
        Ok((None, text(rest[0].as_str())))
    } else if rest.len() == 2 {
        Ok((Some(text(rest[0].as_str())), text(rest[1].as_str())))
    } else {
        let mut m = String::new();
        push_text(
            &mut m,
            "Error: expected 1 or 2 positional arguments after install-package (binary-name, or version-package binary-name). Found: ",
        );
        crate::strings::push_char(&mut m, '[');
        let ghost start = m@;
        let mut i: usize = 0;
        while i < rest.len()
            invariant
                i <= rest@.len(),
                m@ == start + debug_items(texts(rest@).take(i as int)),
            decreases rest@.len() - i,
        {
            let ghost before = m@;
            if i > 0 {
                push_text(&mut m, ", ");
            }
            push_debug_quoted(&mut m, rest[i].as_str());
            proof {
                let t = texts(rest@);
                assert(t.take(i as int + 1).drop_last() =~= t.take(i as int));
                assert(t.take(i as int + 1).last() == rest@[i as int]@);
                if i == 0 {
                    assert(t.take(1) =~= seq![t[0]]);
                }
                assert(m@ =~= start + debug_items(t.take(i as int + 1)));
            }
            i = i + 1;
        }
        proof {
            assert(texts(rest@).take(i as int) =~= texts(rest@));
        }
        crate::strings::push_char(&mut m, ']');
        proof {
            assert(m@ =~= run_arity_message(texts(rest@)));
        }
        Err(m)
    }
}

/// A string with the characters of a literal.
fn text(s: &str) -> (r: String)
    ensures
        r@ == s@,
{
    let mut r = String::new();
    push_text(&mut r, s);
    r
}

} // verus!

verus! {

/// A package of the project's dependency graph, as `cargo metadata`
/// describes it: its id, its name and its version.
pub struct MetadataPackage {
    pub id: String,
    pub name: String,
    pub version: String,
}

/// The position of the first package with id `id`, from position `i` on.
pub open spec fn package_with_id(pkgs: Seq<MetadataPackage>, id: Seq<char>, i: nat) -> Option<nat>
    decreases pkgs.len() - i,
{
    if i >= pkgs.len() {
        None
    } else if pkgs[i as int].id@ == id {
        Some(i)
    } else {
        package_with_id(pkgs, id, i + 1)
    }
}

/// The error when a package is not among the project's dependencies.
pub open spec fn dependency_missing_message(name: Seq<char>) -> Seq<char> {
    "Package `"@ + name + "` not found in project dependencies."@
}

/// The version of the package `name` found by walking the resolved nodes
/// from node `k` on: each node's package (the first with the node's id)
/// is checked in turn.
pub open spec fn version_from_nodes(
    pkgs: Seq<MetadataPackage>,
    nodes: Seq<Seq<char>>,
    name: Seq<char>,
    k: nat,
) -> Result<Seq<char>, Seq<char>>
    decreases nodes.len() - k,
{
    if k >= nodes.len() {
        Err(dependency_missing_message(name))
    } else {
        match package_with_id(pkgs, nodes[k as int], 0) {
            None => Err("Package not found in metadata packages"@),
            Some(i) => if pkgs[i as int].name@ == name {
                Ok(pkgs[i as int].version@)
            } else {
                version_from_nodes(pkgs, nodes, name, k + 1)
            },
        }
    }
}

fn find_package(pkgs: &Vec<MetadataPackage>, id: &str) -> (r: Option<usize>)
    ensures
        r matches Some(i) ==> i < pkgs@.len() && package_with_id(pkgs@, id@, 0) == Some(i as nat),
        r is None ==> package_with_id(pkgs@, id@, 0) is None,
{
    let mut i: usize = 0;
    while i < pkgs.len()
        invariant
            i <= pkgs@.len(),
            package_with_id(pkgs@, id@, 0) == package_with_id(pkgs@, id@, i as nat),
        decreases pkgs@.len() - i,
    {
        if text_is(pkgs[i].id.as_str(), id) {
            return Some(i);
        }
        i = i + 1;
    }
    None
}

/// The version of the dependency `package_name` in a resolved dependency
/// graph: the nodes (by package id) are walked in order, and the first
/// whose package has that name gives its version.
pub fn find_dependency_version(
    packages: &Vec<MetadataPackage>,
    nodes: &Vec<String>,
    package_name: &str,
) -> (r: Result<String, String>)
    ensures
        match version_from_nodes(packages@, texts(nodes@), package_name@, 0) {
            Ok(v) => r matches Ok(s) && s@ == v,
            Err(m) => r matches Err(e) && e@ == m,
        },
{
    let ghost ns = texts(nodes@);
    let mut k: usize = 0;
    while k < nodes.len()
        invariant
            k <= nodes@.len(),
            ns == texts(nodes@),
            version_from_nodes(packages@, ns, package_name@, 0) == version_from_nodes(
                packages@,
                ns,
                package_name@,
                k as nat,
            ),
        decreases nodes@.len() - k,
    {
        assert(ns[k as int] == nodes@[k as int]@);
        match find_package(packages, nodes[k].as_str()) {
            None => {
                return Err(text("Package not found in metadata packages"));
            },
            Some(i) => {
                if text_is(packages[i].name.as_str(), package_name) {
                    return Ok(text(packages[i].version.as_str()));
                }
            },
        }
        k = k + 1;
    }
    let mut m = String::new();
    push_text(&mut m, "Package `");
    push_text(&mut m, package_name);
    push_text(&mut m, "` not found in project dependencies.");
    Err(m)
}

} // verus!

verus! {

/// Deleting a shortcut that was just created leaves that name absent (so
/// that deleting it again fails) and the other shortcuts as they were
/// before the creation.
pub proof fn lemma_create_then_delete(
    before: Config,
    created: Config,
    deleted: Config,
    name: Seq<char>,
    target: (Seq<char>, Seq<char>),
)
    requires
        created.shortcut_map() == before.shortcut_map().insert(name, target),
        deleted.shortcut_map() == created.shortcut_map().remove(name),
    ensures
        created.shortcut_map().contains_key(name),
        !deleted.shortcut_map().contains_key(name),
        deleted.shortcut_map() == before.shortcut_map().remove(name),
{
    assert(deleted.shortcut_map() =~= before.shortcut_map().remove(name));
}

/// A JSON value, as plain values: numbers are kept as their text.
#[derive(Debug)]
pub enum Json {
    Null,
    Bool(bool),
    Number(String),
    Str(String),
    Array(Vec<Json>),
    Object(Vec<(String, Json)>),
}

/// The value of the first field named `key`.
pub open spec fn json_field(fields: Seq<(String, Json)>, key: Seq<char>) -> Option<Json>
    decreases fields.len(),
{
    if fields.len() == 0 {
        None
    } else if fields[0].0@ == key {
        Some(fields[0].1)
    } else {
        json_field(fields.drop_first(), key)
    }
}

/// The strings among `items`, in order.
pub open spec fn json_strings(items: Seq<Json>) -> Seq<Seq<char>>
    decreases items.len(),
{
    if items.len() == 0 {
        seq![]
    } else {
        json_strings(items.drop_last()) + match items.last() {
            Json::Str(s) => seq![s@],
            _ => seq![],
        }
    }
}

/// The binaries of one install record: the strings of its `bins` array.
pub open spec fn record_bins(v: Json) -> Seq<Seq<char>> {
    match v {
        Json::Object(fs) => match json_field(fs@, "bins"@) {
            Some(Json::Array(b)) => json_strings(b@),
            _ => seq![],
        },
        _ => seq![],
    }
}

/// The binaries of the install records `installs`, in order.
pub open spec fn records_bins(installs: Seq<(String, Json)>) -> Seq<Seq<char>>
    decreases installs.len(),
{
    if installs.len() == 0 {
        seq![]
    } else {
        records_bins(installs.drop_last()) + record_bins(installs.last().1)
    }
}

/// The binaries that the install records of `cargo install` (the
/// `installs` object of its `.crates2.json`) name, in order.
pub open spec fn recorded_binaries(j: Json) -> Seq<Seq<char>> {
    match j {
        Json::Object(fs) => match json_field(fs@, "installs"@) {
            Some(Json::Object(ins)) => records_bins(ins@),
            _ => seq![],
        },
        _ => seq![],
    }
}

/// The value of the first field named `key`.
fn find_field<'a>(fields: &'a Vec<(String, Json)>, key: &str) -> (r: Option<&'a Json>)
    ensures
        match json_field(fields@, key@) {
            Some(j) => r matches Some(x) && *x == j,
            None => r is None,
        },
{
    let mut i: usize = 0;
    assert(fields@.skip(0) =~= fields@);
    while i < fields.len()
        invariant
            i <= fields@.len(),
            json_field(fields@, key@) == json_field(fields@.skip(i as int), key@),
        decreases fields@.len() - i,
    {
        assert(fields@.skip(i as int).drop_first() =~= fields@.skip(i as int + 1));
        if text_is(fields[i].0.as_str(), key) {
            return Some(&fields[i].1);
        }
        i = i + 1;
    }
    None
}

/// Appends the binaries of the install record `v`.
fn push_record_bins(out: &mut Vec<String>, v: &Json)
    ensures
        texts(final(out)@) == texts(old(out)@) + record_bins(*v),
{
    let ghost o = texts(out@);
    if let Json::Object(fs) = v {
        match find_field(fs, "bins") {
            Some(Json::Array(items)) => {
                let mut i: usize = 0;
                while i < items.len()
                    invariant
                        i <= items@.len(),
                        texts(out@) == o + json_strings(items@.take(i as int)),
                    decreases items@.len() - i,
                {
                    assert(items@.take(i as int + 1).drop_last() =~= items@.take(i as int));
                    let ghost before = texts(out@);
                    if let Json::Str(s) = &items[i] {
                        out.push(s.clone());
                        assert(texts(out@) =~= before.push(s@));
                    }
                    i = i + 1;
                }
                assert(items@.take(items@.len() as int) =~= items@);
                return;
            },
            _ => {},
        }
    }
    assert(texts(out@) =~= o + record_bins(*v));
}

/// The binaries that the install records of `cargo install` name, in
/// increasing order, each once.
pub fn installed_binaries(json: &Json) -> (r: Vec<String>)
    ensures
        strictly_sorted(bytes_of(r@)),
        bytes_of(r@).to_set() == recorded_binaries(*json).map_values(|s: Seq<char>| encode_utf8(s)).to_set(),
{
    let mut binaries: Vec<String> = Vec::new();
    if let Json::Object(fields) = json {
        match find_field(fields, "installs") {
            Some(Json::Object(installs)) => {
                let mut i: usize = 0;
                while i < installs.len()
                    invariant
                        i <= installs@.len(),
                        texts(binaries@) == records_bins(installs@.take(i as int)),
                    decreases installs@.len() - i,
                {
                    assert(installs@.take(i as int + 1).drop_last() =~= installs@.take(i as int));
                    push_record_bins(&mut binaries, &installs[i].1);
                    i = i + 1;
                }
                assert(installs@.take(installs@.len() as int) =~= installs@);
            },
            _ => {},
        }
    }
    assert(bytes_of(binaries@) =~= recorded_binaries(*json).map_values(|s: Seq<char>| encode_utf8(s)));
    sorted_unique(binaries)
}

} // verus!
