use guardrail::files::FileMap;
use guardrail::syndicate::{
    build_architect_prompt, build_coder_prompt, check_workspace_path, build_critic_prompt, equals_ignore_ascii_case, extract_error_files,
    format_files_for_prompt, infer_fence_language, merge_files, parse_multi_file_output, workspace_build_failure,
    workspace_run_outcome, SyndicateAction, SyndicateLoop, MAX_REMEDIATION_ROUNDS,
};

fn entries(f: &FileMap) -> Vec<(String, String)> {
    (0..f.len()).map(|i| {
        let (p, c) = f.entry(i);
        (p.clone(), c.clone())
    }).collect()
}

fn file_map(items: &[(&str, &str)]) -> FileMap {
    let mut f = FileMap::new();
    for (p, c) in items {
        f.insert(p.to_string(), c.to_string());
    }
    f
}

fn pairs(items: &[(&str, &str)]) -> Vec<(String, String)> {
    items.iter().map(|(p, c)| (p.to_string(), c.to_string())).collect()
}

const TWO_FILES: &str = "Intro text\n[FILE: src/main.rs]\n```rust\nmod handlers;\nfn main() {}\n```\n\n\
[FILE: Cargo.toml]\n```toml\n[package]\nname = \"demo\"\n```\ntrailing words";

#[test]
fn parses_file_blocks() {
    let files = parse_multi_file_output(TWO_FILES);
    assert_eq!(
        entries(&files),
        pairs(&[("Cargo.toml", "[package]\nname = \"demo\""), ("src/main.rs", "mod handlers;\nfn main() {}")])
    );
}

#[test]
fn parser_trims_paths_drops_empty_files_and_keeps_the_last_duplicate() {
    let text = "[FILE:   a.txt  ]\n```\n  first  \n```\n[FILE: empty.rs]\n```rust\n\n```\n\
                [FILE: a.txt]\n```\nsecond\n```\n[FILE: outside.md]\nnot in a fence\n";
    let files = parse_multi_file_output(text);
    assert_eq!(entries(&files), pairs(&[("a.txt", "second")]));
}

#[test]
fn text_without_markers_has_no_files() {
    assert!(parse_multi_file_output("```rust\nfn main() {}\n```").is_empty());
    assert!(parse_multi_file_output("").is_empty());
}

#[test]
fn formats_files_in_path_order() {
    let files = file_map(&[("src/main.rs", "fn main() {}"), ("Cargo.toml", "[package]")]);
    assert_eq!(
        format_files_for_prompt(&files),
        "[FILE: Cargo.toml]\n```toml\n[package]\n```\n\n[FILE: src/main.rs]\n```rust\nfn main() {}\n```\n\n"
    );
}

#[test]
fn parsing_the_printed_files_gives_them_back() {
    let files = file_map(&[
        ("src/main.rs", "mod handlers;\n\nfn main() {\n    handlers::run();\n}"),
        ("src/handlers.rs", "pub fn run() {\n    println!(\"Connection handled\");\n}"),
        ("Cargo.toml", "[package]\nname = \"demo\"\nedition = \"2021\""),
        ("README", "plain text file"),
    ]);
    let printed = format_files_for_prompt(&files);
    let back = parse_multi_file_output(&printed);
    assert_eq!(entries(&back), entries(&files));
}

#[test]
fn fence_language_follows_the_extension() {
    assert_eq!(infer_fence_language("src/main.rs"), "rust");
    assert_eq!(infer_fence_language("Cargo.toml"), "toml");
    assert_eq!(infer_fence_language("app.py"), "python");
    assert_eq!(infer_fence_language("main.go"), "go");
    assert_eq!(infer_fence_language("index.js"), "javascript");
    assert_eq!(infer_fence_language("index.ts"), "typescript");
    assert_eq!(infer_fence_language("data.json"), "json");
    assert_eq!(infer_fence_language("ci.yaml"), "yaml");
    assert_eq!(infer_fence_language("ci.yml"), "yaml");
    assert_eq!(infer_fence_language("Makefile"), "");
}

#[test]
fn error_files_are_distinct_and_in_order() {
    let log = "error[E0425]: cannot find value `x`\n --> src/handlers.rs:3:32\n  |\n\
               warning: unused import\n  --> src/main.rs:1:5\nerror: again\n --> src/handlers.rs:9:1\n\
               note: --> :4:2\n";
    assert_eq!(extract_error_files(log), vec!["src/handlers.rs".to_string(), "src/main.rs".to_string()]);
    assert!(extract_error_files("no arrows here").is_empty());
}

#[test]
fn merge_keeps_untouched_files_and_replaces_the_rest() {
    let current = file_map(&[("Cargo.toml", "[package]"), ("src/main.rs", "old main"), ("src/lib.rs", "lib")]);
    let partial = file_map(&[("src/main.rs", "new main"), ("src/extra.rs", "extra")]);
    let merged = merge_files(&current, &partial);
    assert_eq!(
        entries(&merged),
        pairs(&[
            ("Cargo.toml", "[package]"),
            ("src/extra.rs", "extra"),
            ("src/lib.rs", "lib"),
            ("src/main.rs", "new main"),
        ])
    );
}

#[test]
fn language_match_ignores_ascii_case() {
    assert!(equals_ignore_ascii_case("Rust", "rust"));
    assert!(equals_ignore_ascii_case("RUST", "rust"));
    assert!(!equals_ignore_ascii_case("rusty", "rust"));
    assert!(!equals_ignore_ascii_case("python", "rust"));
}

#[test]
fn architect_prompt_names_language_task_and_workspace() {
    let p = build_architect_prompt("Build a server.", "Rust", true);
    assert!(p.starts_with("You are THE ARCHITECT — an elite systems designer specializing in high-performance Rust.\n\n"));
    assert!(p.contains("- Do NOT write any Rust code. Only the blueprint.\n"));
    assert!(p.contains("The project will be compiled as a Cargo workspace using `cargo build` and `cargo run`.\n"));
    assert!(p.ends_with("TASK:\nBuild a server.\n"));
    let q = build_architect_prompt("Write a script.", "python", false);
    assert!(q.contains("- You MUST output a DIRECTORY STRUCTURE showing every file that must be created.\n\nTASK:\n"));
    assert!(!q.contains("Cargo workspace"));
}

#[test]
fn coder_prompt_for_a_first_draft() {
    let p = build_coder_prompt("Rust", "THE PLAN", None, None, None);
    assert!(p.starts_with("You are THE CODER — an elite Rust implementation engineer. You write flawless, production-grade Rust code"));
    assert!(p.contains("ARCHITECT'S BLUEPRINT:\n─────────────────────────────────────────────\nTHE PLAN\n"));
    assert!(p.contains("[FILE: src/main.rs]\n```rust\n// code here\n```"));
    assert!(!p.contains("DELTA REMEDIATION"));
}

#[test]
fn coder_prompt_for_a_fix_restricts_to_the_broken_files() {
    let broken = vec!["src/handlers.rs".to_string()];
    let p = build_coder_prompt("rust", "PLAN", Some("OLD FILES"), Some("ERR"), Some(broken.as_slice()));
    assert!(p.contains("You previously wrote the following project files:\n─────────────────────────────────────────────\nOLD FILES\n"));
    assert!(p.contains("The workspace build/run FAILED with this error:\n```\nERR\n```\n\n"));
    assert!(p.contains("DELTA REMEDIATION:\nONLY rewrite the following files: [\"src/handlers.rs\"].\n"));
    let q = build_coder_prompt("rust", "PLAN", Some("OLD FILES"), Some("ERR"), None);
    assert!(!q.contains("DELTA REMEDIATION"));
    assert!(q.contains("Check your file boundaries.\n\nFix ALL reported errors.\n\nOUTPUT FORMAT:"));
}

#[test]
fn critic_prompt_quotes_plan_and_code() {
    let p = build_critic_prompt("Rust", "PLAN", "CODE");
    assert!(p.contains("Below is a multi-file Rust project"));
    assert!(p.contains("THE CODER based on an architectural blueprint.\n"));
    assert!(p.contains("CODER'S IMPLEMENTATION:\n─────────────────────────────────────────────\nCODE\n"));
    assert!(p.contains("[FILE: path/to/file]\n```rust\n// refined code\n```"));
}

#[test]
fn workspace_outcomes_quote_the_streams() {
    assert_eq!(workspace_build_failure("boom"), "[Build Error] cargo build failed:\nboom");
    assert_eq!(workspace_run_outcome(true, "out".to_string(), "err"), Ok("out".to_string()));
    assert_eq!(
        workspace_run_outcome(false, "out".to_string(), "err"),
        Err("[Runtime Error] cargo run failed:\nstdout: out\nstderr: err".to_string())
    );
}

fn ask(a: SyndicateAction) -> String {
    match a {
        SyndicateAction::AskLlm(p) => p,
        _ => panic!("expected a prompt"),
    }
}

fn run_files(a: SyndicateAction) -> FileMap {
    match a {
        SyndicateAction::RunWorkspace(f) => f,
        _ => panic!("expected a workspace run"),
    }
}

const CODER_REPLY: &str = "[FILE: Cargo.toml]\n```toml\n[package]\nname = \"srv\"\n```\n\n\
[FILE: src/main.rs]\n```rust\nmod handlers;\nfn main() {}\n```\n";

#[test]
fn syndicate_remediates_then_succeeds() {
    let (lp, a) = SyndicateLoop::start("Build a server.", "Rust", Some("Connection handled"));
    assert_eq!(ask(a), build_architect_prompt("Build a server.", "Rust", true));
    let (lp, a) = lp.on_llm_reply("  THE PLAN \n");
    assert_eq!(ask(a), build_coder_prompt("Rust", "THE PLAN", None, None, None));
    let (lp, a) = lp.on_llm_reply(CODER_REPLY);
    let coder_files = parse_multi_file_output(CODER_REPLY);
    assert_eq!(ask(a), build_critic_prompt("Rust", "THE PLAN", &format_files_for_prompt(&coder_files)));
    let (lp, a) = lp.on_llm_reply("Looks fine to me.");
    let first = run_files(a);
    assert_eq!(entries(&first), entries(&coder_files));

    let error = "error[E0425]: cannot find function\n --> src/handlers.rs:3:32\n";
    let (lp, a) = lp.on_workspace_result(Err(error.to_string()));
    let broken = vec!["src/handlers.rs".to_string()];
    assert_eq!(
        ask(a),
        build_coder_prompt(
            "Rust",
            "THE PLAN",
            Some(&format_files_for_prompt(&coder_files)),
            Some(error),
            Some(broken.as_slice())
        )
    );
    let fix = "[FILE: src/handlers.rs]\n```rust\npub fn handle() {}\n```\n";
    let (lp, a) = lp.on_llm_reply(fix);
    assert!(ask(a).contains("pub fn handle() {}"));
    let (lp, a) = lp.on_llm_reply("");
    let second = run_files(a);
    assert_eq!(
        entries(&second),
        pairs(&[
            ("Cargo.toml", "[package]\nname = \"srv\""),
            ("src/handlers.rs", "pub fn handle() {}"),
            ("src/main.rs", "mod handlers;\nfn main() {}"),
        ])
    );
    let (_, a) = lp.on_workspace_result(Ok("Listening on port 4000\nConnection handled\n".to_string()));
    match a {
        SyndicateAction::Finished(Ok(out)) => assert_eq!(out, "Listening on port 4000\nConnection handled\n"),
        _ => panic!("expected success"),
    }
}

#[test]
fn syndicate_gives_up_after_the_last_round() {
    let (lp, _) = SyndicateLoop::start("task", "rust", Some("X"));
    let (lp, _) = lp.on_llm_reply("plan");
    let (lp, _) = lp.on_llm_reply(CODER_REPLY);
    let (mut lp, _) = lp.on_llm_reply("");
    for _ in 0..MAX_REMEDIATION_ROUNDS {
        let (next, a) = lp.on_workspace_result(Ok("nope".to_string()));
        let prompt = ask(a);
        assert!(prompt.contains("[Logic Error] Expected output containing 'X', but got 'nope'"));
        let (next, _) = next.on_llm_reply(CODER_REPLY);
        let (next, a) = next.on_llm_reply("");
        run_files(a);
        lp = next;
    }
    let (_, a) = lp.on_workspace_result(Ok("  nope  ".to_string()));
    match a {
        SyndicateAction::Finished(Err(e)) => assert_eq!(
            e,
            "Syndicate exhausted all 3 remediation rounds. Last error: [Logic Error] Expected output containing 'X', but got 'nope'"
        ),
        _ => panic!("expected the pipeline to give up"),
    }
}

#[test]
fn syndicate_returns_the_reviewed_files_for_other_languages() {
    let (lp, a) = SyndicateLoop::start("Write a script.", "python", None);
    assert!(ask(a).contains("high-performance python."));
    let (lp, _) = lp.on_llm_reply("plan");
    let (lp, _) = lp.on_llm_reply("[FILE: main.py]\n```python\nprint(1)\n```\n");
    let (_, a) = lp.on_llm_reply("[FILE: main.py]\n```python\nprint(2)\n```\n");
    match a {
        SyndicateAction::Finished(Ok(out)) => assert_eq!(out, "[FILE: main.py]\n```python\nprint(2)\n```\n\n"),
        _ => panic!("expected the files"),
    }
}

#[test]
fn syndicate_stops_when_the_coder_writes_no_file() {
    let (lp, _) = SyndicateLoop::start("task", "rust", None);
    let (lp, _) = lp.on_llm_reply("plan");
    let (_, a) = lp.on_llm_reply("I refuse.");
    match a {
        SyndicateAction::Finished(Err(e)) => assert_eq!(e, "THE CODER failed to produce any [FILE: ...] blocks."),
        _ => panic!("expected a stop"),
    }
}

#[test]
fn syndicate_without_expected_output_accepts_any_run() {
    let (lp, _) = SyndicateLoop::start("task", "rust", None);
    let (lp, _) = lp.on_llm_reply("plan");
    let (lp, _) = lp.on_llm_reply(CODER_REPLY);
    let (lp, _) = lp.on_llm_reply("");
    let (_, a) = lp.on_workspace_result(Ok("anything".to_string()));
    assert!(matches!(a, SyndicateAction::Finished(Ok(ref s)) if s == "anything"));
}

#[test]
fn printing_does_not_depend_on_insertion_order() {
    let a = file_map(&[("b.rs", "B"), ("a.toml", "A"), ("c.py", "C")]);
    let b = file_map(&[("c.py", "C"), ("b.rs", "B"), ("a.toml", "A")]);
    assert_eq!(format_files_for_prompt(&a), format_files_for_prompt(&b));
}

#[test]
fn workspace_paths_stay_inside() {
    for ok in ["Cargo.toml", "src/main.rs", "a/..b/c", "..x", "x..", "./src/lib.rs", ""] {
        assert_eq!(check_workspace_path(ok), Ok(()), "{}", ok);
    }
    for bad in ["/etc/passwd", "../escape.rs", "src/../../x", "a/.."] {
        assert_eq!(
            check_workspace_path(bad),
            Err(format!("Refusing to write {} outside the workspace", bad))
        );
    }
}
