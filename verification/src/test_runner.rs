//! The configuration of a run of the tests of a Wasm file, and the choice
//! of the tests to run among the module's exports.

use std::path::PathBuf;
use vstd::prelude::*;
use vstd::std_specs::convert::IntoSpec;
use crate::strings::{
    chars_start_with, decimal, find_char, find_sub, index_of_char, index_of_sub, push_decimal,
    push_text, string_of, to_chars,
};
pub use crate::testing::{Test, TestMode, Tests};

verus! {

/// The standard library's file system path.
#[verifier::external_type_specification]
#[verifier::external_body]
pub struct ExPathBuf(PathBuf);

/// Possible values for the `--format` option.
#[derive(Debug, Clone, Copy, PartialEq, Eq, Structural)]
pub enum OutputFormatSetting {
    /// Display one character per test
    Terse,
}

/// How to run the tests of a Wasm file.
pub struct TestRunner {
    /// The basename of the file being tested.
    pub file_name: String,
    /// The raw contents of the file to test.
    pub file_content: Vec<u8>,
    /// Generate the test sources without ES modules.
    pub no_modules: bool,
    /// Generate the test sources in debug mode.
    pub debug: bool,
    /// Split linked modules out into their own files.
    pub split_linked_modules: bool,
    /// Run ignored tests too.
    pub include_ignored: bool,
    /// Run only the ignored tests.
    pub ignored: bool,
    /// Exactly match filters rather than by substring.
    pub exact: bool,
    /// Skip tests whose names contain one of these filters.
    pub skip: Vec<String>,
    /// List all tests and benchmarks.
    pub list: bool,
    /// Don't capture `console.*()` of each task, allow printing directly.
    pub nocapture: bool,
    /// Configure formatting of output.
    pub format: Option<OutputFormatSetting>,
    /// Run only the tests whose names contain (or, with `exact`, are) this.
    pub filter: Option<String>,
    /// Disable headless tests.
    pub no_headless: bool,
    /// A directory to use in place of a generated temp directory.
    pub temp_dir: Option<PathBuf>,
    /// The timeout to use for webdriver processes.
    pub driver_timeout: u64,
    /// The timeout to use for browser processes.
    pub browser_timeout: u64,
    /// The webdriver json config content.
    pub capabilities_content: Option<String>,
    /// An optional prefix for coverage profraw files.
    pub coverage_profraw_prefix: Option<String>,
    /// The expected output file or directory for coverage profraw files.
    pub coverage_profraw_out: Option<PathBuf>,
    /// Skip setting Cross-Origin policies for tests.
    pub no_origin_isolation: bool,
    /// An optional override address to use for headless tests.
    pub address: Option<String>,
    /// The test mode to use when the type cannot be told from the file.
    pub fallback_test_mode: Option<TestMode>,
    /// Only run web tests.
    pub test_only_web: bool,
    /// Only run node tests.
    pub test_only_node: bool,
    /// The path to the desired `nodejs` binary for node tests.
    pub node_bin: Option<PathBuf>,
    /// Extra entries of `NODE_PATH`.
    pub node_path: Vec<PathBuf>,
    /// Arguments to pass to nodejs for node tests.
    pub node_args: Vec<String>,
}

impl TestRunner {
    /// A runner for the given file, with every option off and the default
    /// timeouts (5 s for the webdriver, 20 s for the browser).
    pub fn new(file_name: String, file_content: Vec<u8>) -> (r: Self)
        ensures
            r.file_name == file_name,
            r.file_content == file_content,
            !r.no_modules,
            !r.debug,
            !r.split_linked_modules,
            !r.include_ignored,
            !r.ignored,
            !r.exact,
            r.skip@.len() == 0,
            !r.list,
            !r.nocapture,
            r.format is None,
            r.filter is None,
            !r.no_headless,
            r.temp_dir is None,
            r.driver_timeout == 5,
            r.browser_timeout == 20,
            r.capabilities_content is None,
            r.coverage_profraw_prefix is None,
            r.coverage_profraw_out is None,
            !r.no_origin_isolation,
            r.address is None,
            r.fallback_test_mode is None,
            !r.test_only_node,
            !r.test_only_web,
            r.node_bin is None,
            r.node_path@.len() == 0,
            r.node_args@.len() == 0,
    {
        Self {
            file_name,
            file_content,
            no_modules: false,
            debug: false,
            split_linked_modules: false,
            include_ignored: false,
            ignored: false,
            exact: false,
            skip: Vec::new(),
            list: false,
            nocapture: false,
            format: None,
            filter: None,
            no_headless: false,
            temp_dir: None,
            driver_timeout: 5,
            browser_timeout: 20,
            capabilities_content: None,
            coverage_profraw_prefix: None,
            coverage_profraw_out: None,
            no_origin_isolation: false,
            address: None,
            fallback_test_mode: None,
            test_only_node: false,
            test_only_web: false,
            node_bin: None,
            node_path: Vec::new(),
            node_args: Vec::new(),
        }
    }

    /// Generates the test sources without ES modules.
    pub fn no_modules(&mut self) -> (r: &mut Self)
        ensures
            *r == (TestRunner { no_modules: true, ..*old(self) }),
            *final(self) == *final(r),
    {
        self.no_modules = true;
        self
    }

    /// Generates the test sources in debug mode.
    pub fn debug(&mut self) -> (r: &mut Self)
        ensures
            *r == (TestRunner { debug: true, ..*old(self) }),
            *final(self) == *final(r),
    {
        self.debug = true;
        self
    }
    /// Splits linked modules out into their own files.
    pub fn split_linked_modules(&mut self) -> (r: &mut Self)
        ensures
            *r == (TestRunner { split_linked_modules: true, ..*old(self) }),
            *final(self) == *final(r),
    {
        self.split_linked_modules = true;
        self
    }
    /// Runs ignored tests too.
    pub fn with_include_ignored(&mut self) -> (r: &mut Self)
        ensures
            *r == (TestRunner { include_ignored: true, ..*old(self) }),
            *final(self) == *final(r),
    {
        self.include_ignored = true;
        self
    }
    /// Runs only the ignored tests.
    pub fn with_ignored(&mut self) -> (r: &mut Self)
        ensures
            *r == (TestRunner { ignored: true, ..*old(self) }),
            *final(self) == *final(r),
    {
        self.ignored = true;
        self
    }
    /// Matches filters exactly rather than by substring.
    pub fn with_exact(&mut self) -> (r: &mut Self)
        ensures
            *r == (TestRunner { exact: true, ..*old(self) }),
            *final(self) == *final(r),
    {
        self.exact = true;
        self
    }
    /// Lists the tests instead of running them.
    pub fn with_list(&mut self) -> (r: &mut Self)
        ensures
            *r == (TestRunner { list: true, ..*old(self) }),
            *final(self) == *final(r),
    {
        self.list = true;
        self
    }
    /// Lets the tests print directly.
    pub fn with_nocapture(&mut self) -> (r: &mut Self)
        ensures
            *r == (TestRunner { nocapture: true, ..*old(self) }),
            *final(self) == *final(r),
    {
        self.nocapture = true;
        self
    }
    /// Sets the output format.
    pub fn with_format(&mut self, format: OutputFormatSetting) -> (r: &mut Self)
        ensures
            *r == (TestRunner { format: Some(format), ..*old(self) }),
            *final(self) == *final(r),
    {
        self.format = Some(format);
        self
    }
    /// Disables headless tests.
    pub fn with_no_headless(&mut self) -> (r: &mut Self)
        ensures
            *r == (TestRunner { no_headless: true, ..*old(self) }),
            *final(self) == *final(r),
    {
        self.no_headless = true;
        self
    }
    /// Uses `path` in place of a generated temp directory.
    pub fn with_temp_dir(&mut self, path: PathBuf) -> (r: &mut Self)
        ensures
            *r == (TestRunner { temp_dir: Some(path), ..*old(self) }),
            *final(self) == *final(r),
    {
        self.temp_dir = Some(path);
        self
    }
    /// Sets the timeout of webdriver processes.
    pub fn with_driver_timeout(&mut self, timeout: u64) -> (r: &mut Self)
        ensures
            *r == (TestRunner { driver_timeout: timeout, ..*old(self) }),
            *final(self) == *final(r),
    {
        self.driver_timeout = timeout;
        self
    }
    /// Sets the timeout of browser processes.
    pub fn with_browser_timeout(&mut self, timeout: u64) -> (r: &mut Self)
        ensures
            *r == (TestRunner { browser_timeout: timeout, ..*old(self) }),
            *final(self) == *final(r),
    {
        self.browser_timeout = timeout;
        self
    }
    /// Sets the webdriver json config content.
    pub fn with_capabilities(&mut self, content: String) -> (r: &mut Self)
        ensures
            *r == (TestRunner { capabilities_content: Some(content), ..*old(self) }),
            *final(self) == *final(r),
    {
        self.capabilities_content = Some(content);
        self
    }
    /// Sets the prefix of coverage profraw files.
    pub fn with_coverage_profraw_prefix(&mut self, prefix: String) -> (r: &mut Self)
        ensures
            *r == (TestRunner { coverage_profraw_prefix: Some(prefix), ..*old(self) }),
            *final(self) == *final(r),
    {
        self.coverage_profraw_prefix = Some(prefix);
        self
    }
    /// Sets where coverage profraw files go.
    pub fn with_coverage_profraw_out(&mut self, path: PathBuf) -> (r: &mut Self)
        ensures
            *r == (TestRunner { coverage_profraw_out: Some(path), ..*old(self) }),
            *final(self) == *final(r),
    {
        self.coverage_profraw_out = Some(path);
        self
    }
    /// Skips setting Cross-Origin policies for tests.
    pub fn with_no_origin_isolation(&mut self) -> (r: &mut Self)
        ensures
            *r == (TestRunner { no_origin_isolation: true, ..*old(self) }),
            *final(self) == *final(r),
    {
        self.no_origin_isolation = true;
        self
    }
    /// Overrides the address of headless tests.
    pub fn with_address(&mut self, address: String) -> (r: &mut Self)
        ensures
            *r == (TestRunner { address: Some(address), ..*old(self) }),
            *final(self) == *final(r),
    {
        self.address = Some(address);
        self
    }
    /// Sets the test mode to use when the file does not tell it.
    pub fn with_fallback_test_mode(&mut self, test_mode: TestMode) -> (r: &mut Self)
        ensures
            *r == (TestRunner { fallback_test_mode: Some(test_mode), ..*old(self) }),
            *final(self) == *final(r),
    {
        self.fallback_test_mode = Some(test_mode);
        self
    }
    /// Runs only web tests.
    pub fn with_test_only_web(&mut self) -> (r: &mut Self)
        ensures
            *r == (TestRunner { test_only_web: true, ..*old(self) }),
            *final(self) == *final(r),
    {
        self.test_only_web = true;
        self
    }
    /// Runs only node tests.
    pub fn with_test_only_node(&mut self) -> (r: &mut Self)
        ensures
            *r == (TestRunner { test_only_node: true, ..*old(self) }),
            *final(self) == *final(r),
    {
        self.test_only_node = true;
        self
    }
    /// Sets the `nodejs` binary of node tests.
    pub fn with_node_bin(&mut self, binary: PathBuf) -> (r: &mut Self)
        ensures
            *r == (TestRunner { node_bin: Some(binary), ..*old(self) }),
            *final(self) == *final(r),
    {
        self.node_bin = Some(binary);
        self
    }
    /// Sets the extra entries of `NODE_PATH`.
    pub fn with_node_path(&mut self, path: Vec<PathBuf>) -> (r: &mut Self)
        ensures
            *r == (TestRunner { node_path: path, ..*old(self) }),
            *final(self) == *final(r),
    {
        self.node_path = path;
        self
    }
    /// Sets the arguments passed to nodejs.
    pub fn with_node_args(&mut self, args: Vec<String>) -> (r: &mut Self)
        ensures
            *r == (TestRunner { node_args: args, ..*old(self) }),
            *final(self) == *final(r),
    {
        self.node_args = args;
        self
    }
    /// Skips the tests whose names contain (or, with `exact`, are) `filter`.
    pub fn with_skip<S: Into<String>>(&mut self, filter: S) -> (r: &mut Self)
        ensures
            r.skip@.len() == old(self).skip@.len() + 1,
            r.skip@.drop_last() == old(self).skip@,
            S::obeys_into_spec() ==> r.skip@.last() == filter.into_spec(),
            *r == (TestRunner { skip: r.skip, ..*old(self) }),
            *final(self) == *final(r),
    {
        self.skip.push(filter.into());
        self
    }

    /// Runs only the tests whose names contain (or, with `exact`, are)
    /// `filter`.
    pub fn with_filter<S: Into<String>>(&mut self, filter: S) -> (r: &mut Self)
        ensures
            r.filter is Some,
            S::obeys_into_spec() ==> r.filter == Some(filter.into_spec()),
            *r == (TestRunner { filter: r.filter, ..*old(self) }),
            *final(self) == *final(r),
    {
        self.filter = Some(filter.into());
        self
    }

    /// The name of the coverage profraw file for the tested file: the
    /// configured prefix (if any), the file name, and `.profraw`.
    pub open spec fn spec_profraw_name(&self, file_name: Seq<char>) -> Seq<char> {
        let prefix = match self.coverage_profraw_prefix {
            Some(p) => p@,
            None => seq![],
        };
        prefix + file_name + ".profraw"@
    }

    /// The name of the coverage profraw file for the tested file. It is
    /// the whole path where no output is configured, and is placed in the
    /// configured output where that is a directory.
    pub fn coverage_profraw_name(&self, file_name: &str) -> (r: String)
        ensures
            r@ == self.spec_profraw_name(file_name@),
    {
        let mut r = String::new();
        match &self.coverage_profraw_prefix {
            Some(p) => push_text(&mut r, p.as_str()),
            None => {},
        }
        push_text(&mut r, file_name);
        push_text(&mut r, ".profraw");
        r
    }

    /// Where the coverage profile of the tested file goes, given whether
    /// the configured output (if any) is a directory: the profraw name
    /// alone where no output is configured, that name inside the output
    /// where it is a directory, else the output itself.
    pub fn coverage_target(&self, file_name: &str, out_is_dir: bool) -> (r: CoverageTarget)
        ensures
            match self.coverage_profraw_out {
                None => r matches CoverageTarget::Name(n) && n@ == self.spec_profraw_name(file_name@),
                Some(_) => if out_is_dir {
                    r matches CoverageTarget::InOutputDirectory(n) && n@ == self.spec_profraw_name(file_name@)
                } else {
                    r is ConfiguredOutput
                },
            },
    {
        let name = self.coverage_profraw_name(file_name);
        match &self.coverage_profraw_out {
            None => CoverageTarget::Name(name),
            Some(_) => if out_is_dir {
                CoverageTarget::InOutputDirectory(name)
            } else {
                CoverageTarget::ConfiguredOutput
            },
        }
    }
}

/// Where a coverage profile is written.
pub enum CoverageTarget {
    /// A file of this name (no output was configured).
    Name(String),
    /// A file of this name inside the configured output directory.
    InOutputDirectory(String),
    /// The configured output itself.
    ConfiguredOutput,
}


/// Why the tests cannot be run.
#[derive(Debug, Clone, Copy, PartialEq, Eq, Structural)]
pub enum RunnerError {
    /// Both `ignored` and `include_ignored` were asked for.
    IgnoredWithIncludeIgnored,
    /// The test configuration section holds none of the known modes.
    InvalidTestSection,
    /// There is no test configuration section and no fallback mode.
    NoTestMode,
    /// The file is not a Wasm module that can be parsed.
    ModuleParse,
}

/// The message of a [`RunnerError`].
pub open spec fn runner_message(e: RunnerError) -> Seq<char> {
    match e {
        RunnerError::IgnoredWithIncludeIgnored => "`ignored` is mutually exclusive with `include_ignored`."@,
        RunnerError::InvalidTestSection => "invalid __wasm_bingen_test_unstable value"@,
        RunnerError::NoTestMode => "Unable to determine test mode. No fallback was provided."@,
        RunnerError::ModuleParse => "failed to deserialize Wasm module"@,
    }
}

impl RunnerError {
    /// The error's message.
    pub fn message(&self) -> (s: String)
        ensures
            s@ == runner_message(*self),
    {
        let mut s = String::new();
        match self {
            RunnerError::IgnoredWithIncludeIgnored => push_text(&mut s, "`ignored` is mutually exclusive with `include_ignored`."),
            RunnerError::InvalidTestSection => push_text(&mut s, "invalid __wasm_bingen_test_unstable value"),
            RunnerError::NoTestMode => push_text(&mut s, "Unable to determine test mode. No fallback was provided."),
            RunnerError::ModuleParse => push_text(&mut s, "failed to deserialize Wasm module"),
        }
        s
    }
}

/// The test mode that the module's `__wasm_bindgen_test_unstable` section
/// asks for: the first of the bytes 1 (browser), 2 (dedicated worker),
/// 3 (shared worker), 4 (service worker) and 5 (node) that the section
/// holds; without a section, the fallback mode.
pub open spec fn spec_test_mode(
    no_modules: bool,
    fallback: Option<TestMode>,
    section: Option<Seq<u8>>,
) -> Result<TestMode, RunnerError> {
    match section {
        Some(data) => if data.contains(1u8) {
            Ok(TestMode::Browser { no_modules })
        } else if data.contains(2u8) {
            Ok(TestMode::DedicatedWorker { no_modules })
        } else if data.contains(3u8) {
            Ok(TestMode::SharedWorker { no_modules })
        } else if data.contains(4u8) {
            Ok(TestMode::ServiceWorker { no_modules })
        } else if data.contains(5u8) {
            Ok(TestMode::Node { no_modules })
        } else {
            Err(RunnerError::InvalidTestSection)
        },
        None => match fallback {
            Some(m) => Ok(m),
            None => Err(RunnerError::NoTestMode),
        },
    }
}

fn bytes_contain(data: &Vec<u8>, b: u8) -> (r: bool)
    ensures
        r == data@.contains(b),
{
    let mut i: usize = 0;
    while i < data.len()
        invariant
            i <= data@.len(),
            forall|j: int| 0 <= j < i ==> data@[j] != b,
        decreases data@.len() - i,
    {
        if data[i] == b {
            assert(data@[i as int] == b);
            return true;
        }
        i = i + 1;
    }
    false
}

/// Whether a test suite in mode `mode` is skipped: a browser suite when
/// only node.js tests run, a node.js suite when only browser tests run.
pub open spec fn spec_skips_mode(r: TestRunner, mode: TestMode) -> bool {
    let node = mode is Node;
    (r.test_only_node && !node) || (r.test_only_web && node)
}

/// A test as plain values: its name, its export and whether it is ignored.
/// A test as plain values: its name, its export and whether it is ignored.
pub struct TestView {
    pub name: Seq<char>,
    pub export: Seq<char>,
    pub ignored: bool,
}

/// The part of a test export's name after `__wbgt_`, if it has that prefix.
pub open spec fn after_test_prefix(n: Seq<char>) -> Option<Seq<char>> {
    let p = "__wbgt_"@;
    if p.len() <= n.len() && n.subrange(0, p.len() as int) == p {
        Some(n.subrange(p.len() as int, n.len() as int))
    } else {
        None
    }
}

/// Whether an export that names a test has the `_` that ends its
/// modifiers.
pub open spec fn has_modifiers(n: Seq<char>) -> bool {
    match after_test_prefix(n) {
        Some(rest) => find_char(rest, '_') is Some,
        None => true,
    }
}

/// The test an export declares, as its name and whether it is ignored: an
/// export `__wbgt_<modifiers>_<...>::<name>` declares test `<name>`, which
/// is ignored when the modifiers hold a `$`.
pub open spec fn declared_test(n: Seq<char>) -> Option<(Seq<char>, bool)> {
    match after_test_prefix(n) {
        None => None,
        Some(rest) => {
            let modifiers = match find_char(rest, '_') {
                Some(i) => rest.subrange(0, i as int),
                None => rest,
            };
            match find_sub(n, "::"@) {
                None => None,
                Some(i) => Some((n.subrange((i + "::"@.len()) as int, n.len() as int), find_char(modifiers, '$') is Some)),
            }
        },
    }
}

/// Whether a test name matches a filter: equals it with `exact`, contains
/// it otherwise.
pub open spec fn name_matches(name: Seq<char>, pat: Seq<char>, exact: bool) -> bool {
    if exact {
        name == pat
    } else {
        find_sub(name, pat) is Some
    }
}

/// Whether one of the skip filters matches the test name.
pub open spec fn is_skipped(name: Seq<char>, skips: Seq<String>, exact: bool) -> bool {
    exists|i: int| 0 <= i < skips.len() && name_matches(name, #[trigger] skips[i]@, exact)
}

/// Whether the runner filters a declared test out.
pub open spec fn filtered_out(r: TestRunner, name: Seq<char>, ignored: bool) -> bool {
    ||| (r.filter matches Some(f) && !name_matches(name, f@, r.exact))
    ||| is_skipped(name, r.skip@, r.exact)
    ||| (!ignored && r.ignored)
}

/// The tests the first `k` exports declare that the runner keeps, and how
/// many it filters out.
pub open spec fn selected_tests(r: TestRunner, exports: Seq<Seq<char>>, k: nat) -> (Seq<TestView>, nat)
    decreases k,
{
    if k == 0 || k > exports.len() {
        (seq![], 0)
    } else {
        let (ts, filtered) = selected_tests(r, exports, (k - 1) as nat);
        let n = exports[k - 1];
        match declared_test(n) {
            None => (ts, filtered),
            Some((name, ignored)) => if filtered_out(r, name, ignored) {
                (ts, filtered + 1)
            } else {
                (ts.push(TestView { name, export: n, ignored }), filtered)
            },
        }
    }
}

/// The names of a list of strings.
pub open spec fn names_of(v: Seq<String>) -> Seq<Seq<char>> {
    v.map_values(|x: String| x@)
}

/// The view of a list of tests.
pub open spec fn tests_view(ts: Seq<Test>) -> Seq<TestView> {
    ts.map_values(|t: Test| TestView { name: t.name@, export: t.export@, ignored: t.ignored })
}

/// The text of the runtime arguments that the test harness forwards.
pub open spec fn args_text(include_ignored: bool, filtered: nat) -> Seq<char> {
    "\n            // Forward runtime arguments.\n            cx.include_ignored("@ + (if include_ignored {
        "true"@
    } else {
        "false"@
    }) + ");\n            cx.filtered_count("@ + decimal(filtered) + ");\n        "@
}

impl Tests {
    /// The JavaScript statements that forward the runtime arguments.
    pub fn as_args(&self, include_ignored: bool) -> (s: String)
        ensures
            s@ == args_text(include_ignored, self.filtered as nat),
    {
        let mut s = String::new();
        push_text(&mut s, "\n            // Forward runtime arguments.\n            cx.include_ignored(");
        if include_ignored {
            push_text(&mut s, "true");
        } else {
            push_text(&mut s, "false");
        }
        push_text(&mut s, ");\n            cx.filtered_count(");
        push_decimal(&mut s, self.filtered as u64);
        push_text(&mut s, ");\n        ");
        s
    }
}

fn exec_name_matches(name: &Vec<char>, pat: &str, exact: bool) -> (r: bool)
    ensures
        r == name_matches(name@, pat@, exact),
{
    let p = to_chars(pat);
    if exact {
        if name.len() != p.len() {
            assert(name@.len() != p@.len());
            return false;
        }
        let mut i: usize = 0;
        while i < p.len()
            invariant
                exact,
                p@ == pat@,
                name@.len() == p@.len(),
                i <= p@.len(),
                forall|k: int| 0 <= k < i ==> name@[k] == p@[k],
            decreases p@.len() - i,
        {
            if name[i] != p[i] {
                assert(name@[i as int] != p@[i as int]);
                return false;
            }
            i = i + 1;
        }
        assert(name@ =~= p@);
        true
    } else {
        index_of_sub(name, &p).is_some()
    }
}

/// The test that an export declares; see [`declared_test`].
fn exec_declared_test(n: &Vec<char>) -> (r: Option<(String, bool)>)
    requires
        has_modifiers(n@),
    ensures
        match declared_test(n@) {
            Some((name, ignored)) => r matches Some((s, b)) && s@ == name && b == ignored,
            None => r is None,
        },
{
    let prefix = to_chars("__wbgt_");
    if !chars_start_with(n, &prefix) {
        return None;
    }
    let rest = to_chars(string_of(n, prefix.len(), n.len()).as_str());
    let cut = match index_of_char(&rest, '_') {
        Some(i) => i,
        None => rest.len(),
    };
    let modifiers = to_chars(string_of(&rest, 0, cut).as_str());
    let sep = to_chars("::");
    match index_of_sub(n, &sep) {
        Some(i) => {
            let name = string_of(n, i + sep.len(), n.len());
            let ignored = index_of_char(&modifiers, '$').is_some();
            Some((name, ignored))
        },
        None => None,
    }
}

fn exec_has_modifiers(n: &Vec<char>) -> (r: bool)
    ensures
        r == has_modifiers(n@),
{
    let prefix = to_chars("__wbgt_");
    if !chars_start_with(n, &prefix) {
        return true;
    }
    let rest = to_chars(string_of(n, prefix.len(), n.len()).as_str());
    index_of_char(&rest, '_').is_some()
}

impl TestRunner {
    /// Whether the runner filters a declared test out; see
    /// [`filtered_out`].
    fn exec_filtered_out(&self, name: &Vec<char>, ignored: bool) -> (r: bool)
        ensures
            r == filtered_out(*self, name@, ignored),
    {
        let by_filter = match &self.filter {
            Some(f) => !exec_name_matches(name, f.as_str(), self.exact),
            None => false,
        };
        if by_filter {
            return true;
        }
        let mut x: usize = 0;
        while x < self.skip.len()
            invariant
                x <= self.skip@.len(),
                forall|y: int| 0 <= y < x ==> !name_matches(name@, #[trigger] self.skip@[y]@, self.exact),
            decreases self.skip@.len() - x,
        {
            if exec_name_matches(name, self.skip[x].as_str(), self.exact) {
                return true;
            }
            x = x + 1;
        }
        !ignored && self.ignored
    }

    /// The mode to run the tests in, from the contents of the module's
    /// `__wasm_bindgen_test_unstable` section if it has one; see
    /// [`spec_test_mode`].
    pub fn test_mode(&self, section: Option<&Vec<u8>>) -> (r: Result<TestMode, RunnerError>)
        ensures
            r == spec_test_mode(
                self.no_modules,
                self.fallback_test_mode,
                match section {
                    Some(d) => Some(d@),
                    None => None,
                },
            ),
    {
        let no_modules = self.no_modules;
        match section {
            Some(data) => {
                if bytes_contain(data, 1) {
                    Ok(TestMode::Browser { no_modules })
                } else if bytes_contain(data, 2) {
                    Ok(TestMode::DedicatedWorker { no_modules })
                } else if bytes_contain(data, 3) {
                    Ok(TestMode::SharedWorker { no_modules })
                } else if bytes_contain(data, 4) {
                    Ok(TestMode::ServiceWorker { no_modules })
                } else if bytes_contain(data, 5) {
                    Ok(TestMode::Node { no_modules })
                } else {
                    Err(RunnerError::InvalidTestSection)
                }
            },
            None => match self.fallback_test_mode {
                Some(m) => Ok(m),
                None => Err(RunnerError::NoTestMode),
            },
        }
    }

    /// Whether the suite is skipped because only node.js (or only browser)
    /// tests are run and it runs in the other.
    pub fn skips_mode(&self, mode: TestMode) -> (r: bool)
        ensures
            r == spec_skips_mode(*self, mode),
    {
        let node = match mode {
            TestMode::Node { .. } => true,
            _ => false,
        };
        (self.test_only_node && !node) || (self.test_only_web && node)
    }

    /// Fails when both `ignored` and `include_ignored` are set, which
    /// exclude each other.
    pub fn check_ignored_flags(&self) -> (r: Result<(), RunnerError>)
        ensures
            self.ignored && self.include_ignored ==> r == Err::<(), RunnerError>(
                RunnerError::IgnoredWithIncludeIgnored,
            ),
            !(self.ignored && self.include_ignored) ==> r is Ok,
    {
        if self.ignored && self.include_ignored {
            Err(RunnerError::IgnoredWithIncludeIgnored)
        } else {
            Ok(())
        }
    }

    /// The tests among the module's exports that this runner runs, and how
    /// many tests it filters out; see [`selected_tests`].
    pub fn select_tests(&self, exports: &Vec<String>) -> (r: Tests)
        requires
            forall|i: int| 0 <= i < exports@.len() ==> has_modifiers(#[trigger] exports@[i]@),
        ensures
            tests_view(r.tests@) == selected_tests(*self, names_of(exports@), exports@.len()).0,
            r.filtered as nat == selected_tests(*self, names_of(exports@), exports@.len()).1,
    {
        let mut tests = Tests::new();
        let mut k: usize = 0;
        while k < exports.len()
            invariant
                k <= exports@.len(),
                forall|i: int| 0 <= i < exports@.len() ==> has_modifiers(#[trigger] exports@[i]@),
                tests_view(tests.tests@) == selected_tests(*self, names_of(exports@), k as nat).0,
                tests.filtered as nat == selected_tests(*self, names_of(exports@), k as nat).1,
                tests.filtered <= k,
            decreases exports@.len() - k,
        {
            let n = to_chars(exports[k].as_str());
            assert(has_modifiers(exports@[k as int]@));
            let ghost before = tests.tests@;
            match exec_declared_test(&n) {
                Some((name, ignored)) => {
                    let name_chars = to_chars(name.as_str());
                    if self.exec_filtered_out(&name_chars, ignored) {
                        tests.filtered = tests.filtered + 1;
                    } else {
                        let export = string_of(&n, 0, n.len());
                        assert(n@.subrange(0, n@.len() as int) =~= n@);
                        tests.tests.push(Test { name, export, ignored });
                        assert(tests_view(tests.tests@) =~= tests_view(before).push(
                            TestView { name: name_chars@, export: n@, ignored },
                        ));
                    }
                },
                None => {},
            }
            k = k + 1;
        }
        tests
    }
}


/// How many of the first `k` exports declare a test.
pub open spec fn declared_count(exports: Seq<Seq<char>>, k: nat) -> nat
    decreases k,
{
    if k == 0 || k > exports.len() {
        0
    } else {
        declared_count(exports, (k - 1) as nat) + if declared_test(exports[k - 1]) is Some {
            1nat
        } else {
            0nat
        }
    }
}

/// Every test that the exports declare is either run or counted as
/// filtered out, never both and never neither.
pub proof fn lemma_selected_and_filtered_partition(r: TestRunner, exports: Seq<Seq<char>>, k: nat)
    requires
        k <= exports.len(),
    ensures
        selected_tests(r, exports, k).0.len() + selected_tests(r, exports, k).1 == declared_count(exports, k),
    decreases k,
{
    if k > 0 {
        lemma_selected_and_filtered_partition(r, exports, (k - 1) as nat);
    }
}

/// A runner with no filter, no skip filter and without `ignored` runs
/// every declared test, in the order of the exports.
pub proof fn lemma_unfiltered_runner_runs_everything(r: TestRunner, exports: Seq<Seq<char>>, k: nat)
    requires
        k <= exports.len(),
        r.filter is None,
        r.skip@.len() == 0,
        !r.ignored,
    ensures
        selected_tests(r, exports, k).1 == 0,
        selected_tests(r, exports, k).0.len() == declared_count(exports, k),
    decreases k,
{
    if k > 0 {
        lemma_unfiltered_runner_runs_everything(r, exports, (k - 1) as nat);
    }
}


/// The export names, in order, and the data of the first
/// `__wasm_bindgen_test_unstable` custom section of the Wasm module in
/// `bytes`, as walrus (with DWARF generation on) parses it; `None` where
/// walrus cannot parse the bytes.
pub uninterp spec fn parsed_test_module(bytes: Seq<u8>) -> Option<(Seq<Seq<char>>, Option<Seq<u8>>)>;

/// Parses `bytes` with walrus' `ModuleConfig::parse` (DWARF generation on)
/// and takes the export names and, with `ModuleCustomSections::remove_raw`,
/// the test configuration section. The contract names the result (see
/// [`parsed_test_module`]): what walrus accepts as a module is not stated.
#[verifier::external_body]
fn parse_test_module(bytes: &Vec<u8>) -> (r: Option<(Vec<String>, Option<Vec<u8>>)>)
    ensures
        match parsed_test_module(bytes@) {
            None => r is None,
            Some((names, section)) => r matches Some((n, s)) && names_of(n@) == names && match s {
                Some(v) => section == Some(v@),
                None => section is None,
            },
        },
{
    let mut module = walrus::ModuleConfig::new().generate_dwarf(true).parse(bytes).ok()?;
    let names = module.exports.iter().map(|e| e.name.clone()).collect();
    let section = module.customs.remove_raw("__wasm_bindgen_test_unstable").map(|s| s.data);
    Some((names, section))
}

/// What a run of the tests does, once the module is read.
pub enum TestPlan {
    /// With `list`: list these tests.
    List(Tests),
    /// There is no test to run.
    NoTests,
    /// The suite runs in a browser, but only node.js tests are run.
    SkipBrowserSuite,
    /// The suite runs in node.js, but only browser tests are run.
    SkipNodeSuite,
    /// Run these tests in this mode.
    Run(TestMode, Tests),
}

/// A [`TestPlan`] as plain values.
pub enum PlanView {
    List(Seq<TestView>, nat),
    NoTests,
    SkipBrowserSuite,
    SkipNodeSuite,
    Run(TestMode, Seq<TestView>, nat),
}

/// The view of a plan, or of the error that stops the run.
pub open spec fn plan_view(r: Result<TestPlan, RunnerError>) -> Result<PlanView, RunnerError> {
    match r {
        Ok(TestPlan::List(t)) => Ok(PlanView::List(tests_view(t.tests@), t.filtered as nat)),
        Ok(TestPlan::NoTests) => Ok(PlanView::NoTests),
        Ok(TestPlan::SkipBrowserSuite) => Ok(PlanView::SkipBrowserSuite),
        Ok(TestPlan::SkipNodeSuite) => Ok(PlanView::SkipNodeSuite),
        Ok(TestPlan::Run(m, t)) => Ok(PlanView::Run(m, tests_view(t.tests@), t.filtered as nat)),
        Err(e) => Err(e),
    }
}

/// What a run does with the module's export names and test configuration
/// section: with `list`, list the selected tests; without any test, nothing;
/// else the mode comes from the section (see [`spec_test_mode`]), and a
/// suite in the mode that is not run is skipped.
pub open spec fn spec_plan_tests(r: TestRunner, names: Seq<Seq<char>>, section: Option<Seq<u8>>) -> Result<
    PlanView,
    RunnerError,
> {
    let (ts, filtered) = selected_tests(r, names, names.len());
    if r.list {
        Ok(PlanView::List(ts, filtered))
    } else if ts.len() == 0 {
        Ok(PlanView::NoTests)
    } else {
        match spec_test_mode(r.no_modules, r.fallback_test_mode, section) {
            Err(e) => Err(e),
            Ok(mode) => if r.test_only_node && !(mode is Node) {
                Ok(PlanView::SkipBrowserSuite)
            } else if r.test_only_web && mode is Node {
                Ok(PlanView::SkipNodeSuite)
            } else {
                Ok(PlanView::Run(mode, ts, filtered))
            },
        }
    }
}

/// Whether every export that names a test has the `_` that ends its
/// modifiers.
pub open spec fn all_have_modifiers(names: Seq<Seq<char>>) -> bool {
    forall|i: int| 0 <= i < names.len() ==> has_modifiers(#[trigger] names[i])
}

fn all_modifiers_exec(exports: &Vec<String>) -> (r: bool)
    ensures
        r == all_have_modifiers(names_of(exports@)),
{
    let mut i: usize = 0;
    while i < exports.len()
        invariant
            i <= exports@.len(),
            forall|k: int| 0 <= k < i ==> has_modifiers(#[trigger] names_of(exports@)[k]),
        decreases exports@.len() - i,
    {
        let n = to_chars(exports[i].as_str());
        if !exec_has_modifiers(&n) {
            assert(!has_modifiers(names_of(exports@)[i as int]));
            return false;
        }
        i = i + 1;
    }
    true
}

impl TestRunner {
    /// What a run does with the module's exports `exports` and its test
    /// configuration section `section`; see [`spec_plan_tests`].
    pub fn plan_tests(&self, exports: &Vec<String>, section: Option<&Vec<u8>>) -> (r: Result<TestPlan, RunnerError>)
        requires
            all_have_modifiers(names_of(exports@)),
        ensures
            plan_view(r) == spec_plan_tests(
                *self,
                names_of(exports@),
                match section {
                    Some(d) => Some(d@),
                    None => None,
                },
            ),
    {
        proof {
            assert forall|i: int| 0 <= i < exports@.len() implies has_modifiers(#[trigger] exports@[i]@) by {
                assert(has_modifiers(names_of(exports@)[i]));
            }
        }
        let tests = self.select_tests(exports);
        if self.list {
            return Ok(TestPlan::List(tests));
        }
        if tests.tests.len() == 0 {
            return Ok(TestPlan::NoTests);
        }
        let mode = match self.test_mode(section) {
            Ok(m) => m,
            Err(e) => return Err(e),
        };
        let node = match mode {
            TestMode::Node { .. } => true,
            _ => false,
        };
        if self.test_only_node && !node {
            Ok(TestPlan::SkipBrowserSuite)
        } else if self.test_only_web && node {
            Ok(TestPlan::SkipNodeSuite)
        } else {
            Ok(TestPlan::Run(mode, tests))
        }
    }

    /// What a run of the tests of `file_content` does, up to running them:
    /// the flags `ignored` and `include_ignored` exclude each other; the
    /// file is parsed as a Wasm module; the tests among its exports are
    /// selected and the mode read from its test configuration section (see
    /// [`spec_plan_tests`]). `None` where an export that names a test lacks
    /// the `_` that ends its modifiers, which no test the harness declares
    /// does.
    pub fn plan(&self) -> (r: Option<Result<TestPlan, RunnerError>>)
        ensures
            self.ignored && self.include_ignored ==> r == Some(
                Err::<TestPlan, RunnerError>(RunnerError::IgnoredWithIncludeIgnored),
            ),
            !(self.ignored && self.include_ignored) ==> match parsed_test_module(self.file_content@) {
                None => r == Some(Err::<TestPlan, RunnerError>(RunnerError::ModuleParse)),
                Some((names, section)) => if all_have_modifiers(names) {
                    match r {
                        Some(p) => plan_view(p) == spec_plan_tests(*self, names, section),
                        None => false,
                    }
                } else {
                    r is None
                },
            },
    {
        if self.ignored && self.include_ignored {
            return Some(Err(RunnerError::IgnoredWithIncludeIgnored));
        }
        let (exports, section) = match parse_test_module(&self.file_content) {
            Some(parsed) => parsed,
            None => return Some(Err(RunnerError::ModuleParse)),
        };
        if !all_modifiers_exec(&exports) {
            return None;
        }
        let r = match &section {
            Some(d) => self.plan_tests(&exports, Some(d)),
            None => self.plan_tests(&exports, None),
        };
        Some(r)
    }
}

/// With `--exact`, filters and skips compare whole test names: a test is
/// filtered out exactly when a filter is given and differs from its name,
/// a skip filter equals its name, or only ignored tests run and it is not
/// one. A test named differently from every skip filter is not skipped,
/// though its name may contain one.
pub proof fn lemma_exact_filters_compare_whole_names(r: TestRunner, name: Seq<char>, ignored: bool)
    requires
        r.exact,
    ensures
        filtered_out(r, name, ignored) <==> (
        (r.filter matches Some(f) && f@ != name)
            || (exists|i: int| 0 <= i < r.skip@.len() && #[trigger] r.skip@[i]@ == name)
            || (r.ignored && !ignored)),
{
    if is_skipped(name, r.skip@, r.exact) {
        let i = choose|i: int| 0 <= i < r.skip@.len() && name_matches(name, #[trigger] r.skip@[i]@, r.exact);
        assert(r.skip@[i]@ == name);
    }
    if exists|i: int| 0 <= i < r.skip@.len() && #[trigger] r.skip@[i]@ == name {
        let i = choose|i: int| 0 <= i < r.skip@.len() && #[trigger] r.skip@[i]@ == name;
        assert(name_matches(name, r.skip@[i]@, r.exact));
    }
}

/// With `--exact`, a declared test whose name is the filter (if any), is no
/// skip filter, and is not left out for being unignored while only ignored
/// tests run, is selected: it comes after the tests selected before it.
pub proof fn lemma_exact_selection_keeps_unskipped_tests(
    r: TestRunner,
    exports: Seq<Seq<char>>,
    k: nat,
    name: Seq<char>,
    ignored: bool,
)
    requires
        r.exact,
        0 < k <= exports.len(),
        declared_test(exports[k - 1]) == Some((name, ignored)),
        r.filter matches Some(f) ==> f@ == name,
        forall|i: int| 0 <= i < r.skip@.len() ==> #[trigger] r.skip@[i]@ != name,
        !(r.ignored && !ignored),
    ensures
        selected_tests(r, exports, k) == (
            selected_tests(r, exports, (k - 1) as nat).0.push(TestView { name, export: exports[k - 1], ignored }),
            selected_tests(r, exports, (k - 1) as nat).1,
        ),
{
    lemma_exact_filters_compare_whole_names(r, name, ignored);
}

/// Without `--exact`, filters and skips match anywhere in a test name: a
/// test is filtered out exactly when a filter is given that its name does
/// not contain, its name contains a skip filter, or only ignored tests run
/// and it is not one.
pub proof fn lemma_filters_match_within_names(r: TestRunner, name: Seq<char>, ignored: bool)
    requires
        !r.exact,
    ensures
        filtered_out(r, name, ignored) <==> (
        (r.filter matches Some(f) && find_sub(name, f@) is None)
            || (exists|i: int| 0 <= i < r.skip@.len() && find_sub(name, #[trigger] r.skip@[i]@) is Some)
            || (r.ignored && !ignored)),
{
    if is_skipped(name, r.skip@, r.exact) {
        let i = choose|i: int| 0 <= i < r.skip@.len() && name_matches(name, #[trigger] r.skip@[i]@, r.exact);
        assert(find_sub(name, r.skip@[i]@) is Some);
    }
    if exists|i: int| 0 <= i < r.skip@.len() && find_sub(name, #[trigger] r.skip@[i]@) is Some {
        let i = choose|i: int| 0 <= i < r.skip@.len() && find_sub(name, #[trigger] r.skip@[i]@) is Some;
        assert(name_matches(name, r.skip@[i]@, r.exact));
    }
}

} // verus!
