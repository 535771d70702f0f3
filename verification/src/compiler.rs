//! The diagnostics reported when compiling generated code to WebAssembly
//! fails.

use vstd::prelude::*;

use crate::text::{from_chars, push_str, to_chars};

verus! {

/// The message for a failed compilation: the compiler's standard error, or
/// its exit status when it printed nothing.
pub open spec fn compile_failure_text(stderr: Seq<char>, status: Seq<char>) -> Seq<char> {
    "Compilation failed:\n"@ + if stderr.len() == 0 {
        "rustc exited with status "@ + status
    } else {
        stderr
    }
}

/// Builds `compile_failure_text(stderr, status)`.
pub fn compile_failure_message(stderr: &str, status: &str) -> (r: String)
    ensures
        r@ == compile_failure_text(stderr@, status@),
{
    let mut m = to_chars("Compilation failed:\n");
    let e = to_chars(stderr);
    if e.len() == 0 {
        push_str(&mut m, "rustc exited with status ");
        push_str(&mut m, status);
    } else {
        push_str(&mut m, stderr);
    }
    from_chars(m.as_slice())
}

/// The message when the compiler succeeded but wrote no module.
pub open spec fn missing_module_text(path: Seq<char>) -> Seq<char> {
    "rustc succeeded but no .wasm file was produced at "@ + path
}

/// Builds `missing_module_text(path)`.
pub fn missing_module_message(path: &str) -> (r: String)
    ensures
        r@ == missing_module_text(path@),
{
    let mut m = to_chars("rustc succeeded but no .wasm file was produced at ");
    push_str(&mut m, path);
    from_chars(m.as_slice())
}

} // verus!
