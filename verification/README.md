# wasm_bindgen_cli_support

The logic of the wasm-bindgen command line support library, verified with
Verus, and the `cargo wasm-bindgen` subcommand around it.

- `src/` is the verified library. Parsed Wasm modules are read through a
  plain model (`wasm_model`): every item is an index into the module's
  lists. On that model stand the descriptor interpreter (`interpreter`),
  the running of descriptor functions (`descriptors`), the Wasm codegen
  conventions (`wasm_conventions`, with the `target_features` section),
  export name normalisation (`normalize`) and the transforms
  (`transforms`), among them the JS Promise Integration instrumentation
  (`transforms::jspi`), which builds its wrapper functions on the model.
  Besides them: type descriptors and their custom-section transport
  (`descriptor`, `descriptors_section`), the lowering of outgoing values to
  adapter instructions (`wit::outgoing`), "did you mean" suggestions (`suggest`), the test
  runner's configuration and test selection (`testing`, `test_runner`),
  the intrinsics by their symbols (`intrinsic`), helpers of the JavaScript
  generator (`js`), the JavaScript with which the bindings reach what the
  Rust side imports (`js_import`), the placing of exported functions,
  constructors and methods (`js_export`) and the configuration of the cargo subcommand
  (`cargo_config`).
- `tests/` exercises the library, building models from modules written in
  the Wasm text format.
- `app/` is the `cargo wasm-bindgen` program: argument parsing, the
  configuration file, the package cache and running binaries, and the
  conversion of walrus modules into the plain model.
