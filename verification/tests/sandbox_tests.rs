use guardrail::feedback::{ErrorType, GuardrailResult, Phase};
use guardrail::sandbox::{classify_execution_error, classify_lowered, execute_wasm};

fn kind_of(r: &GuardrailResult) -> ErrorType {
    match r {
        GuardrailResult::Error { phase, error_type, .. } => {
            assert_eq!(*phase, Phase::Execution);
            *error_type
        }
        GuardrailResult::Success { .. } => panic!("expected an error envelope"),
    }
}

#[test]
fn interrupt_trap_is_a_timeout() {
    let r = classify_execution_error("wasm trap: interrupt".to_string());
    assert_eq!(r, GuardrailResult::timeout("wasm trap: interrupt".to_string()));
}

#[test]
fn deadline_words_are_timeouts_in_any_case() {
    assert_eq!(kind_of(&classify_execution_error("Epoch DEADLINE exceeded".to_string())), ErrorType::Timeout);
}

#[test]
fn memory_limit_is_memory_exceeded() {
    let text = "Memory limit exceeded: requested 60MB".to_string();
    assert_eq!(classify_execution_error(text.clone()), GuardrailResult::memory_exceeded(text));
}

#[test]
fn allocation_failure_is_memory_exceeded() {
    assert_eq!(
        kind_of(&classify_execution_error("memory allocation of 1048576 bytes failed".to_string())),
        ErrorType::MemoryExceeded
    );
    assert_eq!(kind_of(&classify_execution_error("rust_oom handler".to_string())), ErrorType::MemoryExceeded);
}

#[test]
fn wasm_traps_are_traps() {
    for text in [
        "wasm trap: wasm `unreachable` instruction executed",
        "call stack exhausted: stack overflow",
        "Out Of Bounds access",
        "indirect call type mismatch",
        "integer overflow",
        "integer divide by zero",
    ] {
        assert_eq!(kind_of(&classify_execution_error(text.to_string())), ErrorType::Trap, "{}", text);
    }
}

#[test]
fn memory_mentions_win_over_trap_names() {
    assert_eq!(
        kind_of(&classify_execution_error("out of bounds memory access".to_string())),
        ErrorType::MemoryExceeded
    );
    assert_eq!(kind_of(&classify_execution_error("interrupt while growing memory".to_string())), ErrorType::Timeout);
}

#[test]
fn other_memory_mentions_are_memory_exceeded() {
    assert_eq!(kind_of(&classify_execution_error("memory grow denied".to_string())), ErrorType::MemoryExceeded);
}

#[test]
fn anything_else_is_a_runtime_error() {
    let text = "exit status 3".to_string();
    assert_eq!(classify_execution_error(text.clone()), GuardrailResult::runtime_error(text));
}

#[test]
fn classification_reads_the_lowercased_text() {
    let r = classify_lowered("Wasm Trap: Interrupt".to_string(), "wasm trap: interrupt");
    assert_eq!(r, GuardrailResult::timeout("Wasm Trap: Interrupt".to_string()));
}

#[test]
fn execute_wasm_reports_output_or_classified_error() {
    assert_eq!(execute_wasm(Ok("42\n".to_string())), GuardrailResult::success("42\n".to_string()));
    assert_eq!(
        execute_wasm(Err("wasm trap: interrupt".to_string())),
        GuardrailResult::timeout("wasm trap: interrupt".to_string())
    );
}
