//! The coding loop that asks a model for Rust code, runs it in the sandbox
//! and feeds the failures back: code extraction, the prompts, and the loop's
//! decisions as a state machine that the caller drives.

use vstd::prelude::*;

use crate::feedback::{envelope_json, error_type_name, lemma_names_plain, phase_name, GuardrailResult};
use crate::json::{error_object, json_member_str, json_string_member, success_object};
use crate::text::{
    from_chars, has_prefix, lines, opt_view, push_all, push_str, split_lines, starts_with, to_chars,
    trim, trim_chars, views,
};

verus! {

// ── Code extraction ──────────────────────────────────────────────────────────

/// Scans the lines `ls[i..]` for the code block: a line starting with
/// "```rust" opens it (or keeps it open), the next line starting with "```"
/// inside it closes it and yields what was collected, each line inside adds
/// itself and a line break; `None` when no block is closed.
pub open spec fn extract_code_from(ls: Seq<Seq<char>>, i: int, in_block: bool, code: Seq<char>) -> Option<Seq<char>>
    decreases ls.len() - i,
{
    if i < 0 || i >= ls.len() {
        None
    } else if starts_with(ls[i], "```rust"@) {
        extract_code_from(ls, i + 1, true, code)
    } else if starts_with(ls[i], "```"@) && in_block {
        Some(code)
    } else if in_block {
        extract_code_from(ls, i + 1, true, code + ls[i] + seq!['\n'])
    } else {
        extract_code_from(ls, i + 1, false, code)
    }
}

/// The Rust code in the first closed ```rust block of `response`.
pub open spec fn extracted_code(response: Seq<char>) -> Option<Seq<char>> {
    extract_code_from(lines(response), 0, false, seq![])
}

/// Extracts the Rust code bounded by a line starting with "```rust" and the
/// next line starting with "```".
pub fn extract_rust_code(response: &str) -> (r: Option<String>)
    ensures
        opt_view(r) == extracted_code(response@),
{
    let chars = to_chars(response);
    let ls = split_lines(chars.as_slice());
    let ghost l = lines(response@);
    let open_fence = to_chars("```rust");
    let fence = to_chars("```");
    let mut in_block = false;
    let mut code: Vec<char> = Vec::new();
    let mut i: usize = 0;
    while i < ls.len()
        invariant
            views(ls@) == l,
            l == lines(response@),
            open_fence@ == "```rust"@,
            fence@ == "```"@,
            i <= ls@.len(),
            extracted_code(response@) == extract_code_from(l, i as int, in_block, code@),
        decreases ls.len() - i,
    {
        assert(l[i as int] == ls@[i as int]@);
        let line = ls[i].as_slice();
        if has_prefix(line, open_fence.as_slice()) {
            in_block = true;
            i = i + 1;
            continue;
        } else if has_prefix(line, fence.as_slice()) && in_block {
            return Some(from_chars(code.as_slice()));
        }
        if in_block {
            let ghost before = code@;
            push_all(&mut code, line);
            code.push('\n');
            assert(code@ == before + l[i as int] + seq!['\n']);
        }
        i = i + 1;
    }
    None
}

/// The `stdout` member of an envelope's JSON text, as `serde_json` reads it.
pub fn extract_stdout(json_str: &str) -> (r: Option<String>)
    ensures
        opt_view(r) == json_string_member(json_str@, "stdout"@),
        forall|e: GuardrailResult| json_str@ == #[trigger] envelope_json(e) ==> opt_view(r) == envelope_stdout(e),
{
    proof {
        reveal_strlit("stdout");
    }
    let r = json_member_str(json_str, "stdout");
    proof {
        assert forall|e: GuardrailResult| json_str@ == #[trigger] envelope_json(e) implies opt_view(r) == envelope_stdout(e) by {
            match e {
                GuardrailResult::Success { stdout } => {
                    assert(json_str@ == success_object(stdout@));
                },
                GuardrailResult::Error { phase, error_type, message } => {
                    lemma_names_plain(phase, error_type);
                    assert(json_str@ == error_object(phase_name(phase), error_type_name(error_type), message@));
                },
            }
        }
    }
    r
}

/// The standard output an envelope carries: its `stdout` on success, none
/// for an error.
pub open spec fn envelope_stdout(e: GuardrailResult) -> Option<Seq<char>> {
    match e {
        GuardrailResult::Success { stdout } => Some(stdout@),
        GuardrailResult::Error { .. } => None,
    }
}

/// The summary of an envelope: the name of its error type, or the generic
/// note for a success.
pub open spec fn envelope_summary(e: GuardrailResult) -> Seq<char> {
    match e {
        GuardrailResult::Success { .. } => "Generic Guardrail Error"@,
        GuardrailResult::Error { error_type, .. } => "Error Type: "@ + error_type_name(error_type),
    }
}

/// A one-line summary of an envelope's JSON text: its error type, or a
/// generic note when it has none.
pub open spec fn error_summary(json: Seq<char>) -> Seq<char> {
    match json_string_member(json, "error_type"@) {
        Some(t) => "Error Type: "@ + t,
        None => "Generic Guardrail Error"@,
    }
}

/// Summarizes an envelope's JSON text by its `error_type` member.
pub fn summarize_error(json_str: &str) -> (r: String)
    ensures
        r@ == error_summary(json_str@),
        forall|e: GuardrailResult| json_str@ == #[trigger] envelope_json(e) ==> r@ == envelope_summary(e),
{
    proof {
        reveal_strlit("error_type");
    }
    let t = json_member_str(json_str, "error_type");
    proof {
        assert forall|e: GuardrailResult| json_str@ == #[trigger] envelope_json(e) implies opt_view(t) == match e {
            GuardrailResult::Success { .. } => None::<Seq<char>>,
            GuardrailResult::Error { error_type, .. } => Some(error_type_name(error_type)),
        } by {
            match e {
                GuardrailResult::Success { stdout } => {
                    assert(json_str@ == success_object(stdout@));
                },
                GuardrailResult::Error { phase, error_type, message } => {
                    lemma_names_plain(phase, error_type);
                    assert(json_str@ == error_object(phase_name(phase), error_type_name(error_type), message@));
                },
            }
        }
    }
    match t {
        Some(t) => {
            let mut m = to_chars("Error Type: ");
            push_str(&mut m, t.as_str());
            from_chars(m.as_slice())
        },
        None => from_chars(to_chars("Generic Guardrail Error").as_slice()),
    }
}

// ── Prompts ──────────────────────────────────────────────────────────────────

/// The opening prompt: the coding rules followed by the task.
pub open spec fn initial_prompt(task: Seq<char>) -> Seq<char> {
    "You are an elite, deterministic Rust coder. You write ONLY pure Rust code that runs in a zero-trust WASM WASI Preview 1 sandboxed environment.\n\
        Rules:\n\
        - Return ONLY the Rust code inside a ```rust code block.\n\
        - NO explanations. NO markdown outside the code block.\n\
        - The code MUST have a `fn main()` entrypoint.\n\
        - NO filesystem access, NO network access, NO environment variables.\n\
        - ONLY use the standard library and do not use external crates.\n\
        - You use `println\x21` to output the final result.\n\
        \n\
        Task:\n"@ + task + "\n"@
}

/// What a failed round appends to the conversation: the code that was
/// tried and the sandbox's JSON feedback, with the request to fix it.
pub open spec fn remediation_text(code: Seq<char>, json: Seq<char>) -> Seq<char> {
    "\n\nYou wrote the following code:\n```rust\n"@ + code + "\n```\n\nThe Guardrail sandbox rejected your code with the following telemetry JSON:\n```json\n"@ + json + "\n```\n\nFix ALL the reported errors and provide the corrected code in a single ```rust block. NO explanations.\n"@
}

/// Builds `initial_prompt(task)`.
pub fn build_initial_prompt(task: &str) -> (r: String)
    ensures
        r@ == initial_prompt(task@),
{
    let mut m = to_chars("You are an elite, deterministic Rust coder. You write ONLY pure Rust code that runs in a zero-trust WASM WASI Preview 1 sandboxed environment.\n\
        Rules:\n\
        - Return ONLY the Rust code inside a ```rust code block.\n\
        - NO explanations. NO markdown outside the code block.\n\
        - The code MUST have a `fn main()` entrypoint.\n\
        - NO filesystem access, NO network access, NO environment variables.\n\
        - ONLY use the standard library and do not use external crates.\n\
        - You use `println\x21` to output the final result.\n\
        \n\
        Task:\n");
    push_str(&mut m, task);
    push_str(&mut m, "\n");
    from_chars(m.as_slice())
}

// ── The loop ─────────────────────────────────────────────────────────────────

/// The message when the model's reply has no closed ```rust block.
pub open spec fn no_block_message() -> Seq<char> {
    "LLM failed to provide a valid ```rust block."@
}

/// The message when every round failed.
pub open spec fn exhausted_message() -> Seq<char> {
    "Max iterations reached. Autonomous loop failed."@
}

/// The message when the loop is asked to run no round at all.
pub open spec fn unreachable_message() -> Seq<char> {
    "Unreachable"@
}

/// The message for an event that the loop is not waiting for.
pub open spec fn out_of_order_message() -> Seq<char> {
    "The coding loop is not waiting for this event."@
}

/// The abstract state of the coding loop.
pub struct RouterState {
    /// The conversation sent to the model.
    pub history: Seq<char>,
    /// The current round, counted from 1.
    pub iteration: nat,
    /// The number of rounds allowed.
    pub max_iterations: nat,
    /// The code under test while a sandbox run is awaited.
    pub pending: Option<Seq<char>>,
    /// Whether the loop has produced its result.
    pub finished: bool,
}

impl RouterState {
    /// While the loop runs, its round lies between 1 and the maximum.
    pub open spec fn wf(self) -> bool {
        !self.finished ==> 1 <= self.iteration <= self.max_iterations
    }
}

/// What the caller must do next.
pub enum RouterAction {
    /// Send this conversation to the model and report its reply.
    AskLlm(String),
    /// Compile and run this code in the sandbox and report the envelope.
    RunSandbox(String),
    /// The loop is over: the working code and its output, or an error.
    Finished(Result<(String, String), String>),
}

/// The decisions of the coding loop: the caller performs each returned
/// action and hands back its outcome.
pub struct RouterLoop {
    history: String,
    iteration: usize,
    max_iterations: usize,
    pending: Option<String>,
    finished: bool,
}

impl View for RouterLoop {
    type V = RouterState;

    closed spec fn view(&self) -> RouterState {
        RouterState {
            history: self.history@,
            iteration: self.iteration as nat,
            max_iterations: self.max_iterations as nat,
            pending: opt_view(self.pending),
            finished: self.finished,
        }
    }
}

impl RouterLoop {
    #[verifier::type_invariant]
    spec fn inv(self) -> bool {
        !self.finished ==> 1 <= self.iteration <= self.max_iterations
    }

    /// Starts the loop for a task with at most `max_iterations` rounds.
    pub fn start(task_description: &str, max_iterations: usize) -> (r: (RouterLoop, RouterAction))
        ensures
            r.0@ == (RouterState {
                history: initial_prompt(task_description@),
                iteration: 1,
                max_iterations: max_iterations as nat,
                pending: None,
                finished: max_iterations == 0,
            }),
            max_iterations == 0 ==> (r.1 matches RouterAction::Finished(Err(m)) && m@
                == unreachable_message()),
            max_iterations > 0 ==> (r.1 matches RouterAction::AskLlm(p) && p@ == initial_prompt(
                task_description@,
            )),
    {
        let history = build_initial_prompt(task_description);
        if max_iterations == 0 {
            let s = RouterLoop { history, iteration: 1, max_iterations, pending: None, finished: true };
            (s, RouterAction::Finished(Err(from_chars(to_chars("Unreachable").as_slice()))))
        } else {
            let p = history.clone();
            let s = RouterLoop { history, iteration: 1, max_iterations, pending: None, finished: false };
            (s, RouterAction::AskLlm(p))
        }
    }

    /// The loop's state satisfies its invariant.
    pub fn check_wf(&self)
        ensures
            self@.wf(),
    {
        proof {
            use_type_invariant(self);
        }
    }

    /// Takes the model's reply: its trimmed text must hold a ```rust block,
    /// whose code is then to be run in the sandbox.
    pub fn on_llm_reply(&mut self, reply: &str) -> (a: RouterAction)
        ensures
            final(self)@.wf(),
            final(self)@.history == old(self)@.history,
            final(self)@.max_iterations == old(self)@.max_iterations,
            old(self)@.finished || old(self)@.pending is Some ==> final(self)@ == old(self)@ && (
            a matches RouterAction::Finished(Err(m)) && m@ == out_of_order_message()),
            !old(self)@.finished && old(self)@.pending is None ==> match extracted_code(trim(reply@)) {
                None => final(self)@ == (RouterState { finished: true, ..old(self)@ }) && (
                a matches RouterAction::Finished(Err(m)) && m@ == no_block_message()),
                Some(code) => final(self)@ == (RouterState { pending: Some(code), ..old(self)@ })
                    && (a matches RouterAction::RunSandbox(c) && c@ == code),
            },
    {
        proof {
            use_type_invariant(&*self);
        }
        if self.finished || self.pending.is_some() {
            return RouterAction::Finished(Err(from_chars(to_chars("The coding loop is not waiting for this event.").as_slice())));
        }
        let chars = to_chars(reply);
        let trimmed = trim_chars(chars.as_slice());
        let t = from_chars(trimmed.as_slice());
        match extract_rust_code(t.as_str()) {
            None => {
                self.finished = true;
                RouterAction::Finished(Err(from_chars(to_chars("LLM failed to provide a valid ```rust block.").as_slice())))
            },
            Some(code) => {
                let c = code.clone();
                self.pending = Some(code);
                RouterAction::RunSandbox(c)
            },
        }
    }

    /// Takes the sandbox's envelope for the pending code: success ends the
    /// loop with the code and its output; a failure in the last round ends
    /// it with an error; any other failure appends the code and the JSON
    /// feedback to the conversation and starts the next round.
    pub fn on_sandbox_result(&mut self, result: GuardrailResult) -> (a: RouterAction)
        ensures
            final(self)@.wf(),
            starts_with(final(self)@.history, old(self)@.history),
            final(self)@.max_iterations == old(self)@.max_iterations,
            old(self)@.finished || old(self)@.pending is None ==> final(self)@ == old(self)@ && (
            a matches RouterAction::Finished(Err(m)) && m@ == out_of_order_message()),
            !old(self)@.finished && old(self)@.pending is Some ==> ({
                let code = old(self)@.pending->0;
                let json = envelope_json(result);
                if result is Success {
                    final(self)@ == (RouterState { pending: None, finished: true, ..old(self)@ }) && (
                    a matches RouterAction::Finished(Ok((c, out))) && c@ == code && out@
                        == result->stdout@)
                } else if old(self)@.iteration == old(self)@.max_iterations {
                    final(self)@ == (RouterState { pending: None, finished: true, ..old(self)@ }) && (
                    a matches RouterAction::Finished(Err(m)) && m@ == exhausted_message())
                } else {
                    final(self)@ == (RouterState {
                        history: old(self)@.history + remediation_text(code, json),
                        iteration: old(self)@.iteration + 1,
                        pending: None,
                        ..old(self)@
                    }) && (a matches RouterAction::AskLlm(p) && p@ == final(self)@.history)
                }
            }),
    {
        proof {
            use_type_invariant(&*self);
        }
        assert(self.history@.take(self.history@.len() as int) =~= self.history@);
        if self.finished || self.pending.is_none() {
            return RouterAction::Finished(Err(from_chars(to_chars("The coding loop is not waiting for this event.").as_slice())));
        }
        let code = match &self.pending {
            Some(c) => c.clone(),
            None => String::new(),
        };
        let json = result.to_json();
        if result.is_success() {
            let out = match extract_stdout(json.as_str()) {
                Some(s) => s,
                None => from_chars(to_chars("<no stdout>").as_slice()),
            };
            self.finished = true;
            self.pending = None;
            return RouterAction::Finished(Ok((code, out)));
        }
        if self.iteration == self.max_iterations {
            self.finished = true;
            self.pending = None;
            return RouterAction::Finished(Err(from_chars(to_chars("Max iterations reached. Autonomous loop failed.").as_slice())));
        }
        let mut h = to_chars(self.history.as_str());
        push_str(&mut h, "\n\nYou wrote the following code:\n```rust\n");
        push_str(&mut h, code.as_str());
        push_str(&mut h, "\n```\n\nThe Guardrail sandbox rejected your code with the following telemetry JSON:\n```json\n");
        push_str(&mut h, json.as_str());
        push_str(&mut h, "\n```\n\nFix ALL the reported errors and provide the corrected code in a single ```rust block. NO explanations.\n");
        assert(h@ =~= self.history@ + remediation_text(code@, json@));
        assert(h@.take(self.history@.len() as int) =~= self.history@);
        let history = from_chars(h.as_slice());
        let p = history.clone();
        *self = RouterLoop {
            history,
            iteration: self.iteration + 1,
            max_iterations: self.max_iterations,
            pending: None,
            finished: false,
        };
        RouterAction::AskLlm(p)
    }
}

} // verus!
