use guardrail::feedback::{ErrorType, GuardrailResult, Phase};

#[test]
fn test_success_json_shape() {
    let result = GuardrailResult::success("Hello, world!".to_string());
    let json: serde_json::Value = serde_json::from_str(&result.to_json()).unwrap();
    assert_eq!(json["status"], "success");
    assert_eq!(json["stdout"], "Hello, world!");
}

#[test]
fn test_error_json_shape() {
    let result = GuardrailResult::timeout("epoch deadline exceeded".to_string());
    let json: serde_json::Value = serde_json::from_str(&result.to_json()).unwrap();
    assert_eq!(json["status"], "error");
    assert_eq!(json["phase"], "execution");
    assert_eq!(json["error_type"], "timeout");
}

#[test]
fn success_json_is_pretty_printed() {
    let result = GuardrailResult::success("Hello, world!".to_string());
    assert_eq!(result.to_json(), "{\n  \"status\": \"success\",\n  \"stdout\": \"Hello, world!\"\n}");
}

#[test]
fn error_json_is_pretty_printed() {
    let result = GuardrailResult::compilation_error("bad \"code\"\nline 2".to_string());
    assert_eq!(
        result.to_json(),
        "{\n  \"status\": \"error\",\n  \"phase\": \"compilation\",\n  \"error_type\": \"compile_error\",\n  \"message\": \"bad \\\"code\\\"\\nline 2\"\n}"
    );
}

#[test]
fn error_json_carries_the_message() {
    let message = "tab\there, quote \" and backslash \\ and é".to_string();
    let result = GuardrailResult::runtime_error(message.clone());
    let json: serde_json::Value = serde_json::from_str(&result.to_json()).unwrap();
    assert_eq!(json["message"], message.as_str());
    assert_eq!(json["error_type"], "runtime");
}

#[test]
fn every_error_kind_names_its_type() {
    let cases = vec![
        (GuardrailResult::timeout("t".to_string()), "execution", "timeout"),
        (GuardrailResult::memory_exceeded("m".to_string()), "execution", "memory_exceeded"),
        (GuardrailResult::trap("x".to_string()), "execution", "trap"),
        (GuardrailResult::runtime_error("r".to_string()), "execution", "runtime"),
        (GuardrailResult::compilation_error("c".to_string()), "compilation", "compile_error"),
    ];
    for (result, phase, kind) in cases {
        let json: serde_json::Value = serde_json::from_str(&result.to_json()).unwrap();
        assert_eq!(json["status"], "error");
        assert_eq!(json["phase"], phase);
        assert_eq!(json["error_type"], kind);
    }
}

#[test]
fn constructors_set_phase_and_type() {
    assert_eq!(
        GuardrailResult::memory_exceeded("limit".to_string()),
        GuardrailResult::Error {
            phase: Phase::Execution,
            error_type: ErrorType::MemoryExceeded,
            message: "limit".to_string(),
        }
    );
    assert_eq!(
        GuardrailResult::compilation_error("e".to_string()),
        GuardrailResult::Error {
            phase: Phase::Compilation,
            error_type: ErrorType::CompileError,
            message: "e".to_string(),
        }
    );
    assert!(GuardrailResult::success(String::new()).is_success());
    assert!(!GuardrailResult::trap(String::new()).is_success());
}

#[test]
fn control_characters_are_escaped_in_json() {
    let result = GuardrailResult::success("a\u{1}b\u{7f}\u{8}\u{c}\r\t/".to_string());
    assert_eq!(
        result.to_json(),
        "{\n  \"status\": \"success\",\n  \"stdout\": \"a\\u0001b\u{7f}\\b\\f\\r\\t/\"\n}"
    );
}
