use guardrail::scout::{build_scout_prompt, CandidateEvaluation};

#[test]
fn scout_prompt_wraps_the_payload() {
    let p = build_scout_prompt("Rust and Solana developer");
    assert!(p.starts_with("You are an elite Senior Technical Recruiter specializing in Web3, Rust, and Solana.\n"));
    assert!(p.ends_with("Here is the payload to evaluate:\n---\nRust and Solana developer\n---\n"));
    assert!(p.contains("Reply ONLY with the raw {...} JSON.\n"));
    assert!(p.contains("{\n\"developer_score\": <number out of 10>,\n"));
}

#[test]
fn candidate_evaluation_holds_its_fields() {
    let e = CandidateEvaluation {
        developer_score: 7,
        summary_rationale: "Solid".to_string(),
        technical_strengths: vec!["Rust".to_string()],
    };
    let c = e.clone();
    assert_eq!(c.developer_score, 7);
    assert_eq!(c.technical_strengths, vec!["Rust".to_string()]);
}
