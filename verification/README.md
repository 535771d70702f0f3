# guardrail

The decision core of a sandbox for model-written code, verified with Verus.

`src/` is the library, every function of it verified:

- `feedback` — the JSON envelope every run produces, with its exact text.
- `sandbox` — classifying a WebAssembly run's outcome into an envelope.
- `compiler` — the diagnostics of a failed compilation.
- `mhttp` — whitespace collapsing, truncation to a character budget, and the
  accept/reject decisions taken while fetching a page.
- `router` — code extraction, prompts, and the single-agent coding loop as a
  state machine (`RouterLoop`).
- `syndicate` — the `[FILE: path]` block format (parser and printer), error
  log scanning, file merging, the agents' prompts, and the multi-agent
  pipeline as a state machine (`SyndicateLoop`).
- `files` — `FileMap`, a set of files kept in path order.
- `roundtrip` — parsing the printed block format gives the files back, and
  a ```` ```rust ```` block gives back the code written in it, and
  collapsing whitespace twice changes nothing.
- `scout` — the assessment prompt and record.
- `text`, `json` — character-sequence utilities, and the calls into
  `serde_json`.

`app/` is the program around it: compiling with `rustc`, running modules in
Wasmtime, HTTP with `reqwest`, the Ollama endpoint, Cargo workspaces, and
the concurrent cohort evaluation. It performs each action that the state
machines return and hands the outcome back.
