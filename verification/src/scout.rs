//! The scout agent: the prompt that asks the model to assess a developer
//! profile, and the assessment it answers with.

use vstd::prelude::*;

use crate::text::{from_chars, push_str, to_chars};

verus! {

/// The model's structured assessment of a developer profile.
#[derive(Debug, Clone)]
pub struct CandidateEvaluation {
    /// A score out of ten.
    pub developer_score: u8,
    /// A short technical judgment.
    pub summary_rationale: String,
    /// The strengths the model found.
    pub technical_strengths: Vec<String>,
}

/// The prompt that asks for a strict JSON assessment of `payload`.
pub open spec fn scout_prompt(payload: Seq<char>) -> Seq<char> {
    "You are an elite Senior Technical Recruiter specializing in Web3, Rust, and Solana.\n\
        Evaluate the following text scraped from a developer's repository or profile.\n\
        You must return a STRICT JSON object representing your assessment.\n\
        Do NOT wrap the JSON in markdown blocks (no ```json). Reply ONLY with the raw {...} JSON.\n\
        \n\
        The JSON must strictly match this exact structure:\n\
        {\n\
        \"developer_score\": <number out of 10>,\n\
        \"summary_rationale\": \"<a 2-3 sentence strict technical judgment>\",\n\
        \"technical_strengths\": [\"<strength 1>\", \"<strength 2>\"]\n\
        }\n\n\
        Here is the payload to evaluate:\n\
        ---\n\
        "@ + payload + "\n\
        ---\n"@
}

/// Builds `scout_prompt(payload)`.
pub fn build_scout_prompt(payload: &str) -> (r: String)
    ensures
        r@ == scout_prompt(payload@),
{
    let mut m = to_chars("You are an elite Senior Technical Recruiter specializing in Web3, Rust, and Solana.\n\
        Evaluate the following text scraped from a developer's repository or profile.\n\
        You must return a STRICT JSON object representing your assessment.\n\
        Do NOT wrap the JSON in markdown blocks (no ```json). Reply ONLY with the raw {...} JSON.\n\
        \n\
        The JSON must strictly match this exact structure:\n\
        {\n\
        \"developer_score\": <number out of 10>,\n\
        \"summary_rationale\": \"<a 2-3 sentence strict technical judgment>\",\n\
        \"technical_strengths\": [\"<strength 1>\", \"<strength 2>\"]\n\
        }\n\n\
        Here is the payload to evaluate:\n\
        ---\n\
        ");
    push_str(&mut m, payload);
    push_str(&mut m, "\n\
        ---\n");
    from_chars(m.as_slice())
}

} // verus!
