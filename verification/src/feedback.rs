//! The feedback envelope that every sandbox run produces, and its JSON text.
//!
//! Success: `{ "status": "success", "stdout": "<captured output>" }`;
//! error: `{ "status": "error", "phase": ..., "error_type": ..., "message": ... }`.

use vstd::prelude::*;
use vstd::string::StringExecFns;

use crate::json::{error_object, json_quote, plain_name, success_object};

verus! {

/// The phase in which a run failed.
#[derive(Debug, Clone, Copy, PartialEq, Eq, Structural)]
pub enum Phase {
    /// Compiling the source to a WebAssembly module failed.
    Compilation,
    /// Running the module in the sandbox failed.
    Execution,
}

/// The kind of failure.
#[derive(Debug, Clone, Copy, PartialEq, Eq, Structural)]
pub enum ErrorType {
    /// The compiler exited with an error.
    CompileError,
    /// The wall-clock deadline fired.
    Timeout,
    /// A memory limit was hit.
    MemoryExceeded,
    /// The module trapped (unreachable, stack overflow, division by zero, ...).
    Trap,
    /// Any other runtime failure.
    Runtime,
}

/// The envelope returned for every run of the pipeline.
#[derive(Debug, Clone, PartialEq, Eq)]
pub enum GuardrailResult {
    /// The module ran to completion; `stdout` is what it printed.
    Success { stdout: String },
    /// The pipeline failed in `phase` with a classified error.
    Error { phase: Phase, error_type: ErrorType, message: String },
}

/// The snake-case name of a phase in the JSON envelope.
pub open spec fn phase_name(p: Phase) -> Seq<char> {
    match p {
        Phase::Compilation => "compilation"@,
        Phase::Execution => "execution"@,
    }
}

/// The snake-case name of an error type in the JSON envelope.
pub open spec fn error_type_name(t: ErrorType) -> Seq<char> {
    match t {
        ErrorType::CompileError => "compile_error"@,
        ErrorType::Timeout => "timeout"@,
        ErrorType::MemoryExceeded => "memory_exceeded"@,
        ErrorType::Trap => "trap"@,
        ErrorType::Runtime => "runtime"@,
    }
}

/// The pretty-printed JSON text of an envelope: an object with two-space
/// indentation whose first member is the `status` tag, followed by the
/// variant's fields in declaration order.
pub open spec fn envelope_json(r: GuardrailResult) -> Seq<char> {
    match r {
        GuardrailResult::Success { stdout } => success_object(stdout@),
        GuardrailResult::Error { phase, error_type, message } =>
            error_object(phase_name(phase), error_type_name(error_type), message@),
    }
}

/// The phase and error type names need no escaping in JSON.
pub proof fn lemma_names_plain(p: Phase, t: ErrorType)
    ensures
        plain_name(phase_name(p)),
        plain_name(error_type_name(t)),
{
    reveal_strlit("compilation");
    reveal_strlit("execution");
    reveal_strlit("compile_error");
    reveal_strlit("timeout");
    reveal_strlit("memory_exceeded");
    reveal_strlit("trap");
    reveal_strlit("runtime");
}

fn phase_str(p: Phase) -> (s: &'static str)
    ensures
        s@ == phase_name(p),
{
    match p {
        Phase::Compilation => "compilation",
        Phase::Execution => "execution",
    }
}

fn error_type_str(t: ErrorType) -> (s: &'static str)
    ensures
        s@ == error_type_name(t),
{
    match t {
        ErrorType::CompileError => "compile_error",
        ErrorType::Timeout => "timeout",
        ErrorType::MemoryExceeded => "memory_exceeded",
        ErrorType::Trap => "trap",
        ErrorType::Runtime => "runtime",
    }
}

impl GuardrailResult {
    /// A success envelope carrying the captured standard output.
    pub fn success(stdout: String) -> (r: Self)
        ensures
            r == (GuardrailResult::Success { stdout }),
    {
        GuardrailResult::Success { stdout }
    }

    /// A compilation failure carrying the compiler's diagnostics.
    pub fn compilation_error(stderr: String) -> (r: Self)
        ensures
            r == (GuardrailResult::Error {
                phase: Phase::Compilation,
                error_type: ErrorType::CompileError,
                message: stderr,
            }),
    {
        GuardrailResult::Error {
            phase: Phase::Compilation,
            error_type: ErrorType::CompileError,
            message: stderr,
        }
    }

    /// An execution failure: the deadline fired.
    pub fn timeout(detail: String) -> (r: Self)
        ensures
            r == (GuardrailResult::Error {
                phase: Phase::Execution,
                error_type: ErrorType::Timeout,
                message: detail,
            }),
    {
        GuardrailResult::Error { phase: Phase::Execution, error_type: ErrorType::Timeout, message: detail }
    }

    /// An execution failure: a memory limit was hit.
    pub fn memory_exceeded(detail: String) -> (r: Self)
        ensures
            r == (GuardrailResult::Error {
                phase: Phase::Execution,
                error_type: ErrorType::MemoryExceeded,
                message: detail,
            }),
    {
        GuardrailResult::Error {
            phase: Phase::Execution,
            error_type: ErrorType::MemoryExceeded,
            message: detail,
        }
    }

    /// An execution failure: the module trapped.
    pub fn trap(detail: String) -> (r: Self)
        ensures
            r == (GuardrailResult::Error {
                phase: Phase::Execution,
                error_type: ErrorType::Trap,
                message: detail,
            }),
    {
        GuardrailResult::Error { phase: Phase::Execution, error_type: ErrorType::Trap, message: detail }
    }

    /// Any other execution failure.
    pub fn runtime_error(detail: String) -> (r: Self)
        ensures
            r == (GuardrailResult::Error {
                phase: Phase::Execution,
                error_type: ErrorType::Runtime,
                message: detail,
            }),
    {
        GuardrailResult::Error { phase: Phase::Execution, error_type: ErrorType::Runtime, message: detail }
    }

    /// Whether this is a success envelope.
    pub fn is_success(&self) -> (b: bool)
        ensures
            b == (self is Success),
    {
        match self {
            GuardrailResult::Success { .. } => true,
            GuardrailResult::Error { .. } => false,
        }
    }

    /// The envelope as pretty-printed JSON text.
    pub fn to_json(&self) -> (j: String)
        ensures
            j@ == envelope_json(*self),
    {
        match self {
            GuardrailResult::Success { stdout } => {
                let mut j = String::from_str("{\n  \"status\": \"success\",\n  \"stdout\": ");
                let q = json_quote(stdout.as_str());
                j.append(q.as_str());
                j.append("\n}");
                j
            },
            GuardrailResult::Error { phase, error_type, message } => {
                let mut j = String::from_str("{\n  \"status\": \"error\",\n  \"phase\": \"");
                j.append(phase_str(*phase));
                j.append("\",\n  \"error_type\": \"");
                j.append(error_type_str(*error_type));
                j.append("\",\n  \"message\": ");
                let q = json_quote(message.as_str());
                j.append(q.as_str());
                j.append("\n}");
                j
            },
        }
    }
}

} // verus!
