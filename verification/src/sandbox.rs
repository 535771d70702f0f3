//! Turning the outcome of a sandboxed WebAssembly run into a feedback
//! envelope, classifying failures by the words of the runtime's error text.

use vstd::prelude::*;

use crate::feedback::{ErrorType, GuardrailResult, Phase};
use crate::text::{contains, contains_chars, lemma_contains_occurs, lowercase, occurs_at, to_chars, to_lowercase};

verus! {

/// Whether `hay` contains the characters of `pat`.
fn has(hay: &[char], pat: &str) -> (b: bool)
    ensures
        b == contains(hay@, pat@),
{
    let p = to_chars(pat);
    contains_chars(hay, p.as_slice())
}

/// The error type for a lowercased error text: deadline words mean a
/// timeout; any mention of memory, or an allocation failure, means memory
/// exceeded; the names of wasm traps mean a trap; everything else is a
/// runtime error.
pub open spec fn classify_kind(lower: Seq<char>) -> ErrorType {
    if contains(lower, "epoch"@) || contains(lower, "deadline"@) || contains(lower, "interrupt"@) {
        ErrorType::Timeout
    } else if contains(lower, "memory"@) {
        ErrorType::MemoryExceeded
    } else if contains(lower, "alloc"@) || contains(lower, "oom"@) || contains(lower, "rust_oom"@)
        || contains(lower, "alloc_error"@) {
        ErrorType::MemoryExceeded
    } else if contains(lower, "unreachable"@) || contains(lower, "stack overflow"@) || contains(
        lower,
        "out of bounds"@,
    ) || contains(lower, "indirect call"@) || contains(lower, "integer overflow"@) || contains(
        lower,
        "integer divide by zero"@,
    ) {
        ErrorType::Trap
    } else {
        ErrorType::Runtime
    }
}

/// `w` occurs somewhere in `t`.
pub open spec fn mentions(t: Seq<char>, w: Seq<char>) -> bool {
    exists|i: int| #[trigger] occurs_at(t, w, i)
}

/// A deadline word occurs in `t`.
pub open spec fn mentions_deadline(t: Seq<char>) -> bool {
    mentions(t, "epoch"@) || mentions(t, "deadline"@) || mentions(t, "interrupt"@)
}

/// A memory word occurs in `t`: memory, or an allocation failure.
pub open spec fn mentions_memory(t: Seq<char>) -> bool {
    mentions(t, "memory"@) || mentions(t, "alloc"@) || mentions(t, "oom"@)
}

/// The name of a wasm trap occurs in `t`.
pub open spec fn mentions_trap(t: Seq<char>) -> bool {
    ||| mentions(t, "unreachable"@)
    ||| mentions(t, "stack overflow"@)
    ||| mentions(t, "out of bounds"@)
    ||| mentions(t, "indirect call"@)
    ||| mentions(t, "integer overflow"@)
    ||| mentions(t, "integer divide by zero"@)
}

/// How a lowercased error text is classified, by the words that occur in
/// it, in order of precedence: a deadline word makes it a timeout whatever
/// else it holds; otherwise any memory or allocation word makes it memory
/// exceeded, whatever trap names it also holds; otherwise a trap name makes
/// it a trap; a text with none of these words is a runtime error.
pub proof fn law_classify_by_words(lower: Seq<char>)
    ensures
        mentions_deadline(lower) ==> classify_kind(lower) == ErrorType::Timeout,
        !mentions_deadline(lower) && mentions_memory(lower) ==> classify_kind(lower) == ErrorType::MemoryExceeded,
        !mentions_deadline(lower) && !mentions_memory(lower) && mentions_trap(lower) ==> classify_kind(lower)
            == ErrorType::Trap,
        !mentions_deadline(lower) && !mentions_memory(lower) && !mentions_trap(lower) ==> classify_kind(lower)
            == ErrorType::Runtime,
{
    lemma_contains_occurs(lower, "epoch"@);
    lemma_contains_occurs(lower, "deadline"@);
    lemma_contains_occurs(lower, "interrupt"@);
    lemma_contains_occurs(lower, "memory"@);
    lemma_contains_occurs(lower, "alloc"@);
    lemma_contains_occurs(lower, "oom"@);
    lemma_contains_occurs(lower, "rust_oom"@);
    lemma_contains_occurs(lower, "alloc_error"@);
    lemma_contains_occurs(lower, "unreachable"@);
    lemma_contains_occurs(lower, "stack overflow"@);
    lemma_contains_occurs(lower, "out of bounds"@);
    lemma_contains_occurs(lower, "indirect call"@);
    lemma_contains_occurs(lower, "integer overflow"@);
    lemma_contains_occurs(lower, "integer divide by zero"@);
    lemma_oom_words(lower);
}

/// `rust_oom` holds `oom` and `alloc_error` holds `alloc`.
proof fn lemma_oom_words(t: Seq<char>)
    ensures
        mentions(t, "rust_oom"@) ==> mentions(t, "oom"@),
        mentions(t, "alloc_error"@) ==> mentions(t, "alloc"@),
{
    reveal_strlit("rust_oom");
    reveal_strlit("oom");
    reveal_strlit("alloc_error");
    reveal_strlit("alloc");
    if mentions(t, "rust_oom"@) {
        let i = choose|i: int| #[trigger] occurs_at(t, "rust_oom"@, i);
        assert(t.subrange(i, i + 8) == "rust_oom"@);
        assert("rust_oom"@.subrange(5, 8) =~= "oom"@);
        assert(t.subrange(i + 5, i + 8) =~= t.subrange(i, i + 8).subrange(5, 8));
        assert(occurs_at(t, "oom"@, i + 5));
    }
    if mentions(t, "alloc_error"@) {
        let i = choose|i: int| #[trigger] occurs_at(t, "alloc_error"@, i);
        assert(t.subrange(i, i + 11) == "alloc_error"@);
        assert("alloc_error"@.subrange(0, 5) =~= "alloc"@);
        assert(t.subrange(i, i + 5) =~= t.subrange(i, i + 11).subrange(0, 5));
        assert(occurs_at(t, "alloc"@, i));
    }
}

/// Classifies an execution error whose lowercased text is `lowered`; the
/// envelope carries the error text as given.
pub fn classify_lowered(error: String, lowered: &str) -> (r: GuardrailResult)
    ensures
        r == (GuardrailResult::Error {
            phase: Phase::Execution,
            error_type: classify_kind(lowered@),
            message: error,
        }),
{
    let l = to_chars(lowered);
    let s = l.as_slice();
    if has(s, "epoch") || has(s, "deadline") || has(s, "interrupt") {
        GuardrailResult::timeout(error)
    } else if has(s, "memory") {
        GuardrailResult::memory_exceeded(error)
    } else if has(s, "alloc") || has(s, "oom") || has(s, "rust_oom") || has(s, "alloc_error") {
        GuardrailResult::memory_exceeded(error)
    } else if has(s, "unreachable") || has(s, "stack overflow") || has(s, "out of bounds") || has(
        s,
        "indirect call",
    ) || has(s, "integer overflow") || has(s, "integer divide by zero") {
        GuardrailResult::trap(error)
    } else {
        GuardrailResult::runtime_error(error)
    }
}

/// Classifies the (debug-formatted) text of an execution error into an
/// execution-phase envelope, by the words of its lowercase form.
pub fn classify_execution_error(error: String) -> (r: GuardrailResult)
    ensures
        r == (GuardrailResult::Error {
            phase: Phase::Execution,
            error_type: classify_kind(lowercase(error@)),
            message: error,
        }),
{
    let lowered = to_lowercase(error.as_str());
    classify_lowered(error, lowered.as_str())
}

/// The envelope for a finished sandbox run: its captured standard output on
/// success, the classified error otherwise. Never fails.
pub fn execute_wasm(outcome: Result<String, String>) -> (r: GuardrailResult)
    ensures
        match outcome {
            Ok(stdout) => r == (GuardrailResult::Success { stdout }),
            Err(e) => r == (GuardrailResult::Error {
                phase: Phase::Execution,
                error_type: classify_kind(lowercase(e@)),
                message: e,
            }),
        },
{
    match outcome {
        Ok(stdout) => GuardrailResult::success(stdout),
        Err(e) => classify_execution_error(e),
    }
}

} // verus!
