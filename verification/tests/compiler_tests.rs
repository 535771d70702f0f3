use guardrail::compiler::{compile_failure_message, missing_module_message};

#[test]
fn compile_failure_quotes_the_diagnostics() {
    assert_eq!(
        compile_failure_message("error: expected expression", "exit status: 1"),
        "Compilation failed:\nerror: expected expression"
    );
}

#[test]
fn compile_failure_without_diagnostics_names_the_status() {
    assert_eq!(
        compile_failure_message("", "exit status: 1"),
        "Compilation failed:\nrustc exited with status exit status: 1"
    );
}

#[test]
fn missing_module_names_the_path() {
    assert_eq!(
        missing_module_message("/tmp/build/output.wasm"),
        "rustc succeeded but no .wasm file was produced at /tmp/build/output.wasm"
    );
}
