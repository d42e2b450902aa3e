use wasm_bindgen_cli_support::intrinsic::{
    invoke_intrinsic, Intrinsic, IntrinsicEnv, IntrinsicError, JsHelper, OutputMode,
};

#[test]
fn symbols_name_their_intrinsics() {
    assert_eq!(Intrinsic::from_symbol("__wbindgen_jsval_eq"), Ok(Intrinsic::JsvalEq));
    assert_eq!(Intrinsic::from_symbol("__wbindgen_throw"), Ok(Intrinsic::Throw));
    assert_eq!(Intrinsic::from_symbol("__wbindgen_memory"), Ok(Intrinsic::Memory));
    assert_eq!(Intrinsic::from_symbol("__wbindgen_panic_error"), Ok(Intrinsic::PanicError));
    assert_eq!(Intrinsic::from_symbol("__wbindgen_unsigned_shr"), Ok(Intrinsic::UnsignedShr));
}

#[test]
fn unknown_symbols_are_errors() {
    assert_eq!(
        Intrinsic::from_symbol("__wbindgen_nope"),
        Err("unknown intrinsic `__wbindgen_nope`".to_string())
    );
    assert_eq!(Intrinsic::from_symbol(""), Err("unknown intrinsic ``".to_string()));
    // Symbols are matched exactly.
    assert!(Intrinsic::from_symbol("__wbindgen_throw ").is_err());
}

fn env(mode: OutputMode) -> IntrinsicEnv {
    IntrinsicEnv {
        mode,
        wrapped_js_tag: false,
        memory_count: 1,
        memory_export: "memory".to_string(),
        function_table_export: Some("__wbindgen_export_2".to_string()),
        externref_table_export: Some("__wbindgen_externrefs".to_string()),
    }
}

fn js(i: Intrinsic, args: &[&str], e: &IntrinsicEnv) -> (Result<(String, Option<JsHelper>), IntrinsicError>, String) {
    let args: Vec<String> = args.iter().map(|a| a.to_string()).collect();
    let mut prelude = String::new();
    let r = invoke_intrinsic(&i, &args, &mut prelude, e).map(|j| (j.expr, j.helper));
    (r, prelude)
}

#[test]
fn operators_become_expressions() {
    let e = env(OutputMode::Web);
    assert_eq!(js(Intrinsic::Add, &["a", "b"], &e), (Ok(("a + b".to_string(), None)), String::new()));
    assert_eq!(js(Intrinsic::UnsignedShr, &["a", "b"], &e).0, Ok(("a >>> b".to_string(), None)));
    assert_eq!(js(Intrinsic::IsFunction, &["x"], &e).0, Ok(("typeof(x) === 'function'".to_string(), None)));
    assert_eq!(js(Intrinsic::BitNot, &["x"], &e).0, Ok(("~x".to_string(), None)));
    assert_eq!(
        js(Intrinsic::CopyToTypedArray, &["src", "dst"], &e).0,
        Ok(("new Uint8Array(dst.buffer, dst.byteOffset, dst.byteLength).set(src)".to_string(), None))
    );
    assert_eq!(js(Intrinsic::ObjectCloneRef, &["o"], &e).0, Ok(("o".to_string(), None)));
}

#[test]
fn some_intrinsics_write_a_prelude() {
    let e = env(OutputMode::Web);
    assert_eq!(
        js(Intrinsic::IsObject, &["x"], &e),
        (Ok(("typeof(val) === 'object' && val !== null".to_string(), None)), "const val = x;\n".to_string())
    );
    let (r, prelude) = js(Intrinsic::CheckedDiv, &["a", "b"], &e);
    assert_eq!(r, Ok(("result".to_string(), None)));
    let mut expected = String::from("let result;\n");
    expected.push_str(&format!(
        "try {{
                        result = {} / {};
                    }} catch (e) {{
                        if (e instanceof RangeError) {{
                            result = e;
                        }} else {{
                            throw e;
                        }}
                    }}\n",
        "a", "b"
    ));
    assert_eq!(prelude, expected);
    assert_eq!(
        js(Intrinsic::TryIntoNumber, &["v"], &e).1,
        "let result;\ntry { result = +v } catch (e) { result = e }\n"
    );
    assert_eq!(js(Intrinsic::ExternrefHeapLiveCount, &[], &e).0, Ok(("heap.length - free_count - 1024 - 4".to_string(), Some(JsHelper::GlobalHeap))));
}

#[test]
fn context_dependent_intrinsics() {
    let mut e = env(OutputMode::Web);
    assert_eq!(js(Intrinsic::Throw, &["m"], &e).0, Ok(("throw new Error(m)".to_string(), None)));
    e.wrapped_js_tag = true;
    assert_eq!(
        js(Intrinsic::Rethrow, &["x"], &e).0,
        Ok(("throw new WebAssembly.Exception(__wbindgen_wrapped_jstag, [x])".to_string(), None))
    );
    assert_eq!(js(Intrinsic::Module, &[], &e).0, Ok(("wasmModule".to_string(), None)));
    assert_eq!(js(Intrinsic::Memory, &[], &e).0, Ok(("wasm.memory".to_string(), None)));
    assert_eq!(js(Intrinsic::FunctionTable, &[], &e).0, Ok(("wasm.__wbindgen_export_2".to_string(), None)));
    assert_eq!(js(Intrinsic::DebugString, &["v"], &e).0, Ok(("debugString(v)".to_string(), Some(JsHelper::DebugString))));
    let init = js(Intrinsic::InitExternrefTable, &[], &e).0.unwrap().0;
    assert!(init.starts_with("\n                      const table = wasm.__wbindgen_externrefs;\n"));
    assert!(init.ends_with("table.set(offset + 0, undefined);\ntable.set(offset + 1, null);\ntable.set(offset + 2, true);\ntable.set(offset + 3, false)"));
    let em = env(OutputMode::Emscripten);
    assert_eq!(js(Intrinsic::Memory, &[], &em).0, Ok(("HEAPU8".to_string(), None)));
    assert_eq!(js(Intrinsic::Module, &[], &em).0, Err(IntrinsicError::ModuleUnsupported));
}

#[test]
fn intrinsics_without_what_they_need_fail() {
    let mut e = env(OutputMode::Bundler);
    e.memory_count = 0;
    e.function_table_export = None;
    e.externref_table_export = None;
    assert_eq!(js(Intrinsic::Memory, &[], &e).0, Err(IntrinsicError::NoMemory));
    e.memory_count = 2;
    assert_eq!(js(Intrinsic::Memory, &[], &e).0, Err(IntrinsicError::MultipleMemories));
    assert_eq!(js(Intrinsic::FunctionTable, &[], &e).0, Err(IntrinsicError::NoFunctionTable));
    let (r, prelude) = js(Intrinsic::InitExternrefTable, &[], &e);
    assert_eq!(r, Err(IntrinsicError::NoExternrefTable));
    assert!(prelude.is_empty());
    assert_eq!(IntrinsicError::NoExternrefTable.message(), "must enable externref to use externref intrinsic");
    assert_eq!(
        IntrinsicError::MultipleMemories.message(),
        "multiple memories found, unsure which to return \
                         from memory intrinsic"
    );
}
