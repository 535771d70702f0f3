use guardrail::feedback::GuardrailResult;
use guardrail::router::{
    build_initial_prompt, extract_rust_code, extract_stdout, summarize_error, RouterAction, RouterLoop,
};

#[test]
fn extracts_the_first_rust_block() {
    let reply = "Here you go:\n```rust\nfn main() {\n    println!(\"hi\");\n}\n```\nMore text\n```rust\nfn other() {}\n```";
    assert_eq!(
        extract_rust_code(reply),
        Some("fn main() {\n    println!(\"hi\");\n}\n".to_string())
    );
}

#[test]
fn unclosed_or_missing_blocks_give_nothing() {
    assert_eq!(extract_rust_code("```rust\nfn main() {}\n"), None);
    assert_eq!(extract_rust_code("no code here"), None);
    assert_eq!(extract_rust_code("```python\nprint(1)\n```"), None);
}

#[test]
fn a_second_rust_fence_keeps_the_block_open() {
    assert_eq!(
        extract_rust_code("```rust\na\n```rust\nb\n```"),
        Some("a\nb\n".to_string())
    );
}

#[test]
fn stdout_is_read_back_from_a_success_envelope() {
    let json = GuardrailResult::success("line 1\n\"quoted\"".to_string()).to_json();
    assert_eq!(extract_stdout(&json), Some("line 1\n\"quoted\"".to_string()));
    assert_eq!(extract_stdout(&GuardrailResult::trap("t".to_string()).to_json()), None);
    assert_eq!(extract_stdout("not json"), None);
}

#[test]
fn error_summary_names_the_error_type() {
    let json = GuardrailResult::timeout("epoch".to_string()).to_json();
    assert_eq!(summarize_error(&json), "Error Type: timeout");
    assert_eq!(summarize_error("{}"), "Generic Guardrail Error");
    assert_eq!(summarize_error("garbage"), "Generic Guardrail Error");
}

#[test]
fn initial_prompt_states_the_rules_and_the_task() {
    let p = build_initial_prompt("Print the first 10 primes.");
    assert!(p.starts_with("You are an elite, deterministic Rust coder."));
    assert!(p.contains("- You use `println!` to output the final result.\n\nTask:\n"));
    assert!(p.ends_with("Task:\nPrint the first 10 primes.\n"));
}

#[test]
fn router_succeeds_after_one_remediation() {
    let (mut lp, first) = RouterLoop::start("Print 42.", 3);
    let prompt = match first {
        RouterAction::AskLlm(p) => p,
        _ => panic!("expected a prompt"),
    };
    assert_eq!(prompt, build_initial_prompt("Print 42."));

    let code = match lp.on_llm_reply("  ```rust\nfn main() { loop {} }\n```  ") {
        RouterAction::RunSandbox(c) => c,
        _ => panic!("expected code to run"),
    };
    assert_eq!(code, "fn main() { loop {} }\n");

    let failure = GuardrailResult::timeout("wasm trap: interrupt".to_string());
    let json = failure.to_json();
    let history = match lp.on_sandbox_result(failure) {
        RouterAction::AskLlm(h) => h,
        _ => panic!("expected a remediation prompt"),
    };
    let expected_tail = format!(
        "\n\nYou wrote the following code:\n```rust\n{}\n```\n\nThe Guardrail sandbox rejected your code with the following telemetry JSON:\n```json\n{}\n```\n\nFix ALL the reported errors and provide the corrected code in a single ```rust block. NO explanations.\n",
        code, json
    );
    assert_eq!(history, format!("{}{}", prompt, expected_tail));

    let fixed = match lp.on_llm_reply("```rust\nfn main() { println!(\"42\"); }\n```") {
        RouterAction::RunSandbox(c) => c,
        _ => panic!("expected code to run"),
    };
    match lp.on_sandbox_result(GuardrailResult::success("42\n".to_string())) {
        RouterAction::Finished(Ok((c, out))) => {
            assert_eq!(c, fixed);
            assert_eq!(out, "42\n");
        }
        _ => panic!("expected success"),
    }
}

#[test]
fn router_gives_up_after_the_last_round() {
    let (mut lp, _) = RouterLoop::start("task", 1);
    assert!(matches!(lp.on_llm_reply("```rust\nfn main() {}\n```"), RouterAction::RunSandbox(_)));
    match lp.on_sandbox_result(GuardrailResult::trap("unreachable".to_string())) {
        RouterAction::Finished(Err(e)) => assert_eq!(e, "Max iterations reached. Autonomous loop failed."),
        _ => panic!("expected the loop to give up"),
    }
}

#[test]
fn router_with_no_rounds_stops_at_once() {
    let (_, a) = RouterLoop::start("task", 0);
    match a {
        RouterAction::Finished(Err(e)) => assert_eq!(e, "Unreachable"),
        _ => panic!("expected an immediate stop"),
    }
}

#[test]
fn router_stops_when_the_reply_has_no_code() {
    let (mut lp, _) = RouterLoop::start("task", 5);
    match lp.on_llm_reply("I cannot help with that.") {
        RouterAction::Finished(Err(e)) => assert_eq!(e, "LLM failed to provide a valid ```rust block."),
        _ => panic!("expected a stop"),
    }
}

#[test]
fn router_refuses_events_out_of_order() {
    let (mut lp, _) = RouterLoop::start("task", 2);
    match lp.on_sandbox_result(GuardrailResult::success(String::new())) {
        RouterAction::Finished(Err(e)) => assert_eq!(e, "The coding loop is not waiting for this event."),
        _ => panic!("expected a refusal"),
    }
}

#[test]
fn a_rust_block_gives_back_its_code() {
    let code = "use std::fmt;\n\nfn main() {\n    println!(\"{}\", 1);\n}\n";
    let reply = format!("```rust\n{}```\nAnything after the block: ```rust\nignored\n```", code);
    assert_eq!(extract_rust_code(&reply), Some(code.to_string()));
    assert_eq!(extract_rust_code("```rust\n```\n"), Some(String::new()));
}

#[test]
fn envelopes_read_back_their_output_and_error_type() {
    let ok = GuardrailResult::success("out".to_string()).to_json();
    assert_eq!(summarize_error(&ok), "Generic Guardrail Error");
    let err = GuardrailResult::memory_exceeded("stdout".to_string()).to_json();
    assert_eq!(extract_stdout(&err), None);
    assert_eq!(summarize_error(&err), "Error Type: memory_exceeded");
}
