//! The multi-agent coding pipeline: parsing and printing multi-file model
//! output, the agents' prompts, and the pipeline's decisions as a state
//! machine that the caller drives.

use vstd::prelude::*;

use crate::files::{
    insert_entry, law_entries_determined, law_insert_lookup, lemma_insert_entry_sorted, lemma_lex_irrefl, lemma_lookup_absent,
    lemma_lookup_at, lookup, sorted_paths, Entries, FileMap,
};
use crate::text::{
    contains, decimal, ends_with, lemma_contains_occurs, occurs_at, find, lowercase, from_chars, has_prefix, has_suffix, lines, push_all, push_str, split_lines,
    starts_with, to_chars, trim, trim_chars, views,
};

verus! {

// ── Parsing multi-file output ───────────────────────────────────────────────

/// `s` without every leading repetition of `p` (std's `trim_start_matches`).
pub open spec fn strip_prefixes(s: Seq<char>, p: Seq<char>) -> Seq<char>
    decreases s.len(),
{
    if p.len() > 0 && starts_with(s, p) {
        strip_prefixes(s.skip(p.len() as int), p)
    } else {
        s
    }
}

/// `s` without every trailing `c` (std's `trim_end_matches`).
pub open spec fn strip_suffix_chars(s: Seq<char>, c: char) -> Seq<char>
    decreases s.len(),
{
    if s.len() > 0 && s.last() == c {
        strip_suffix_chars(s.drop_last(), c)
    } else {
        s
    }
}

/// A line of the form `[FILE: path]`.
pub open spec fn is_file_marker(line: Seq<char>) -> bool {
    starts_with(line, "[FILE:"@) && ends_with(line, "]"@)
}

/// The path named by a file marker line.
pub open spec fn marker_path(line: Seq<char>) -> Seq<char> {
    trim(strip_suffix_chars(strip_prefixes(line, "[FILE:"@), ']'))
}

/// The parser's state: the files found so far, the file being read, its
/// collected content, and whether a fenced block is open.
pub struct ParseState {
    pub files: Entries,
    pub path: Option<Seq<char>>,
    pub content: Seq<char>,
    pub in_code: bool,
}

/// The files once the file being read is saved: its trimmed content is
/// stored under its path unless it is empty.
pub open spec fn flush(st: ParseState) -> Entries {
    match st.path {
        Some(p) => if trim(st.content).len() > 0 {
            insert_entry(st.files, p, trim(st.content))
        } else {
            st.files
        },
        None => st.files,
    }
}

/// One line of input: a marker saves the current file and starts the named
/// one; inside a file a fence line opens or closes a block and a line in a
/// block is collected; other lines are ignored.
pub open spec fn parse_step(st: ParseState, line: Seq<char>) -> ParseState {
    if is_file_marker(line) {
        ParseState { files: flush(st), path: Some(marker_path(line)), content: seq![], in_code: false }
    } else if st.path is Some {
        if starts_with(line, "```"@) {
            ParseState { in_code: !st.in_code, ..st }
        } else if st.in_code {
            ParseState { content: st.content + line + seq!['\n'], ..st }
        } else {
            st
        }
    } else {
        st
    }
}

/// The parser's state after the first `n` lines.
pub open spec fn parse_lines(ls: Seq<Seq<char>>, n: int) -> ParseState
    decreases n,
{
    if n <= 0 {
        ParseState { files: seq![], path: None, content: seq![], in_code: false }
    } else {
        parse_step(parse_lines(ls, n - 1), ls[n - 1])
    }
}

/// The files of a multi-file response (`[FILE: path]` markers each followed
/// by a fenced block), in path order; a later file with the same path wins.
pub open spec fn parsed_files(response: Seq<char>) -> Entries {
    flush(parse_lines(lines(response), lines(response).len() as int))
}

/// `strip_prefixes(s, p)` for a non-empty `p`.
fn strip_prefixes_chars(s: &[char], p: &[char]) -> (r: Vec<char>)
    requires
        p@.len() > 0,
    ensures
        r@ == strip_prefixes(s@, p@),
{
    let mut k: usize = 0;
    assert(s@.skip(0) == s@);
    loop
        invariant
            k <= s@.len(),
            p@.len() > 0,
            strip_prefixes(s@, p@) == strip_prefixes(s@.skip(k as int), p@),
        decreases s.len() - k,
    {
        let rest = crate::text::copy_range(s, k, s.len());
        if !has_prefix(rest.as_slice(), p) {
            return rest;
        }
        assert(s@.skip(k as int).skip(p@.len() as int) == s@.skip(k + p@.len()));
        k = k + p.len();
    }
}

/// `strip_suffix_chars(s, c)`.
fn strip_suffix_chars_exec(s: &[char], c: char) -> (r: Vec<char>)
    ensures
        r@ == strip_suffix_chars(s@, c),
{
    let mut k: usize = s.len();
    assert(s@.take(k as int) == s@);
    while k > 0 && s[k - 1] == c
        invariant
            k <= s@.len(),
            strip_suffix_chars(s@, c) == strip_suffix_chars(s@.take(k as int), c),
        decreases k,
    {
        assert(s@.take(k as int).drop_last() == s@.take(k - 1));
        k = k - 1;
    }
    crate::text::copy_range(s, 0, k)
}

/// Saves the file being read (`flush`).
fn flush_file(files: &mut FileMap, path: &Option<Vec<char>>, content: &[char])
    ensures
        final(files)@ == flush(ParseState {
            files: old(files)@,
            path: match path {
                Some(p) => Some(p@),
                None => None,
            },
            content: content@,
            in_code: false,
        }),
{
    match path {
        Some(p) => {
            let c = trim_chars(content);
            if c.len() > 0 {
                files.insert(from_chars(p.as_slice()), from_chars(c.as_slice()));
            }
        },
        None => {},
    }
}

/// Parses the model's multi-file output into a file set (`parsed_files`).
pub fn parse_multi_file_output(response: &str) -> (r: FileMap)
    ensures
        r@ == parsed_files(response@),
{
    let chars = to_chars(response);
    let ls = split_lines(chars.as_slice());
    let ghost l = lines(response@);
    let marker = to_chars("[FILE:");
    let close = to_chars("]");
    let fence = to_chars("```");
    let mut files = FileMap::new();
    let mut current_path: Option<Vec<char>> = None;
    let mut current_content: Vec<char> = Vec::new();
    let mut in_code_block = false;
    let mut i: usize = 0;
    while i < ls.len()
        invariant
            views(ls@) == l,
            l == lines(response@),
            marker@ == "[FILE:"@,
            close@ == "]"@,
            fence@ == "```"@,
            i <= ls@.len(),
            parse_lines(l, i as int) == (ParseState {
                files: files@,
                path: match current_path {
                    Some(p) => Some(p@),
                    None => None,
                },
                content: current_content@,
                in_code: in_code_block,
            }),
        decreases ls.len() - i,
    {
        assert(l[i as int] == ls@[i as int]@);
        let line = ls[i].as_slice();
        let ghost before = current_content@;
        if has_prefix(line, marker.as_slice()) && has_suffix(line, close.as_slice()) {
            flush_file(&mut files, &current_path, current_content.as_slice());
            proof {
                reveal_strlit("[FILE:");
            }
            let stripped = strip_prefixes_chars(line, marker.as_slice());
            let stripped = strip_suffix_chars_exec(stripped.as_slice(), ']');
            let path = trim_chars(stripped.as_slice());
            current_path = Some(path);
            current_content = Vec::new();
            in_code_block = false;
        } else if current_path.is_some() {
            if has_prefix(line, fence.as_slice()) {
                in_code_block = !in_code_block;
            } else if in_code_block {
                push_all(&mut current_content, line);
                current_content.push('\n');
                assert(current_content@ == before + l[i as int] + seq!['\n']);
            }
        }
        i = i + 1;
    }
    flush_file(&mut files, &current_path, current_content.as_slice());
    files
}

// ── Printing a file set ─────────────────────────────────────────────────────

/// The code-fence language for a path, by its extension.
pub open spec fn fence_language(path: Seq<char>) -> Seq<char> {
    if ends_with(path, ".rs"@) {
        "rust"@
    } else if ends_with(path, ".toml"@) {
        "toml"@
    } else if ends_with(path, ".py"@) {
        "python"@
    } else if ends_with(path, ".go"@) {
        "go"@
    } else if ends_with(path, ".js"@) {
        "javascript"@
    } else if ends_with(path, ".ts"@) {
        "typescript"@
    } else if ends_with(path, ".json"@) {
        "json"@
    } else if ends_with(path, ".yaml"@) || ends_with(path, ".yml"@) {
        "yaml"@
    } else {
        ""@
    }
}

/// Whether `path` ends with `suffix`.
fn path_ends(path: &[char], suffix: &str) -> (b: bool)
    ensures
        b == ends_with(path@, suffix@),
{
    let s = to_chars(suffix);
    has_suffix(path, s.as_slice())
}

/// Infers the markdown fence language from a file extension.
pub fn infer_fence_language(path: &str) -> (r: &'static str)
    ensures
        r@ == fence_language(path@),
{
    let p = to_chars(path);
    let p = p.as_slice();
    if path_ends(p, ".rs") {
        "rust"
    } else if path_ends(p, ".toml") {
        "toml"
    } else if path_ends(p, ".py") {
        "python"
    } else if path_ends(p, ".go") {
        "go"
    } else if path_ends(p, ".js") {
        "javascript"
    } else if path_ends(p, ".ts") {
        "typescript"
    } else if path_ends(p, ".json") {
        "json"
    } else if path_ends(p, ".yaml") || path_ends(p, ".yml") {
        "yaml"
    } else {
        ""
    }
}

/// One file in the `[FILE: path]` format with a fenced block.
pub open spec fn file_block(path: Seq<char>, content: Seq<char>) -> Seq<char> {
    "[FILE: "@ + path + "]\n```"@ + fence_language(path) + "\n"@ + content + "\n```\n\n"@
}

/// The blocks of the first `n` entries, in order.
pub open spec fn format_entries(es: Entries, n: int) -> Seq<char>
    decreases n,
{
    if n <= 0 {
        seq![]
    } else {
        format_entries(es, n - 1) + file_block(es[n - 1].0, es[n - 1].1)
    }
}

/// The whole file set in the `[FILE: path]` format, in path order.
pub open spec fn formatted_files(es: Entries) -> Seq<char> {
    format_entries(es, es.len() as int)
}

/// Formats a file set back into the `[FILE: ...]` format, in path order.
pub fn format_files_for_prompt(files: &FileMap) -> (r: String)
    ensures
        r@ == formatted_files(files@),
{
    let mut out: Vec<char> = Vec::new();
    let n = files.len();
    let mut i: usize = 0;
    while i < n
        invariant
            n == files@.len(),
            i <= n,
            out@ == format_entries(files@, i as int),
        decreases n - i,
    {
        let (path, content) = files.entry(i);
        let ghost before = out@;
        push_str(&mut out, "[FILE: ");
        push_str(&mut out, path.as_str());
        push_str(&mut out, "]\n```");
        push_str(&mut out, infer_fence_language(path.as_str()));
        push_str(&mut out, "\n");
        push_str(&mut out, content.as_str());
        push_str(&mut out, "\n```\n\n");
        assert(out@ =~= before + file_block(files@[i as int].0, files@[i as int].1));
        i = i + 1;
    }
    from_chars(out.as_slice())
}

/// Two file sets that store the same content under every path are printed
/// identically: the printed order is the path order, whatever the order in
/// which the files were stored.
pub proof fn law_format_deterministic(a: Entries, b: Entries)
    requires
        sorted_paths(a),
        sorted_paths(b),
        forall|p: Seq<char>| #[trigger] lookup(a, p) == lookup(b, p),
    ensures
        formatted_files(a) == formatted_files(b),
{
    law_entries_determined(a, b);
}

// ── Files named by build errors ─────────────────────────────────────────────

/// The path a compiler diagnostic line points at (`--> path:line:col`): the
/// text after the first "--> " up to the first ':', trimmed; `None` when the
/// line has no arrow or the path is empty.
pub open spec fn error_path(line: Seq<char>) -> Option<Seq<char>> {
    match find(line, "--> "@) {
        Some(i) => {
            let rest = line.skip(i + 4);
            let seg = match find(rest, ":"@) {
                Some(j) => rest.take(j),
                None => rest,
            };
            if trim(seg).len() > 0 {
                Some(trim(seg))
            } else {
                None
            }
        },
        None => None,
    }
}

/// The distinct paths named by the first `n` lines, in order of first
/// appearance.
pub open spec fn collect_error_paths(ls: Seq<Seq<char>>, n: int) -> Seq<Seq<char>>
    decreases n,
{
    if n <= 0 {
        seq![]
    } else {
        let acc = collect_error_paths(ls, n - 1);
        match error_path(ls[n - 1]) {
            Some(p) => if acc.contains(p) {
                acc
            } else {
                acc.push(p)
            },
            None => acc,
        }
    }
}

/// The distinct files that an error log points at, in order.
pub open spec fn error_files(log: Seq<char>) -> Seq<Seq<char>> {
    collect_error_paths(lines(log), lines(log).len() as int)
}

/// The views of a sequence of strings.
pub open spec fn string_views(v: Seq<String>) -> Seq<Seq<char>> {
    v.map_values(|s: String| s@)
}

proof fn lemma_collect_no_duplicates(ls: Seq<Seq<char>>, n: int)
    ensures
        collect_error_paths(ls, n).no_duplicates(),
    decreases n,
{
    if n > 0 {
        lemma_collect_no_duplicates(ls, n - 1);
        let acc = collect_error_paths(ls, n - 1);
        match error_path(ls[n - 1]) {
            Some(p) => {
                if !acc.contains(p) {
                    assert forall|i: int, j: int| 0 <= i < acc.push(p).len() && 0 <= j < acc.push(p).len() && i != j
                        implies acc.push(p)[i] != acc.push(p)[j] by {
                        if i == acc.len() {
                            assert(acc[j] != p);
                        } else if j == acc.len() {
                            assert(acc[i] != p);
                        }
                    }
                }
            },
            None => {},
        }
    }
}

/// Whether `v` holds a string equal to `s`.
fn contains_string(v: &Vec<String>, s: &String) -> (b: bool)
    ensures
        b == string_views(v@).contains(s@),
{
    let mut i: usize = 0;
    while i < v.len()
        invariant
            i <= v@.len(),
            forall|j: int| 0 <= j < i ==> v@[j]@ != s@,
        decreases v.len() - i,
    {
        if v[i] == *s {
            assert(string_views(v@)[i as int] == s@);
            return true;
        }
        i = i + 1;
    }
    proof {
        if string_views(v@).contains(s@) {
            let j = choose|j: int| 0 <= j < string_views(v@).len() && string_views(v@)[j] == s@;
            assert(v@[j]@ == s@);
        }
    }
    false
}

/// `error_path(line)`.
fn error_path_exec(line: &[char]) -> (r: Option<String>)
    ensures
        crate::text::opt_view(r) == error_path(line@),
{
    let arrow = to_chars("--> ");
    let len = line.len();
    match crate::text::find_chars(line, arrow.as_slice()) {
        Some(i) => {
            proof {
                reveal_strlit("--> ");
                assert(arrow@.len() == 4);
                assert(i + 4 <= len);
            }
            let rest = crate::text::copy_range(line, i + 4, len);
            assert(rest@ == line@.skip(i + 4));
            let colon = to_chars(":");
            let seg = match crate::text::find_chars(rest.as_slice(), colon.as_slice()) {
                Some(j) => crate::text::copy_range(rest.as_slice(), 0, j),
                None => rest,
            };
            let t = trim_chars(seg.as_slice());
            if t.len() > 0 {
                Some(from_chars(t.as_slice()))
            } else {
                None
            }
        },
        None => None,
    }
}

/// Parses an error log for `--> path` markers and returns the distinct
/// implicated files in order of first appearance.
pub fn extract_error_files(error_log: &str) -> (r: Vec<String>)
    ensures
        string_views(r@) == error_files(error_log@),
        string_views(r@).no_duplicates(),
{
    let chars = to_chars(error_log);
    let ls = split_lines(chars.as_slice());
    let ghost l = lines(error_log@);
    let mut files: Vec<String> = Vec::new();
    let mut i: usize = 0;
    while i < ls.len()
        invariant
            views(ls@) == l,
            l == lines(error_log@),
            i <= ls@.len(),
            string_views(files@) == collect_error_paths(l, i as int),
        decreases ls.len() - i,
    {
        assert(l[i as int] == ls@[i as int]@);
        match error_path_exec(ls[i].as_slice()) {
            Some(path) => {
                if !contains_string(&files, &path) {
                    proof {
                        assert(string_views(files@.push(path)) == string_views(files@).push(path@));
                    }
                    files.push(path);
                }
            },
            None => {},
        }
        i = i + 1;
    }
    proof {
        lemma_collect_no_duplicates(l, l.len() as int);
    }
    files
}

// ── Merging remediated files ────────────────────────────────────────────────

/// `cur` with the first `n` entries of `part` stored over it.
pub open spec fn merge_entries(cur: Entries, part: Entries, n: int) -> Entries
    decreases n,
{
    if n <= 0 {
        cur
    } else {
        let m = merge_entries(cur, part, n - 1);
        insert_entry(m, part[n - 1].0, part[n - 1].1)
    }
}

/// `cur` with every file of `part` stored over it.
pub open spec fn merged(cur: Entries, part: Entries) -> Entries {
    merge_entries(cur, part, part.len() as int)
}

/// Merges the remediated files over the current ones: files that the
/// remediation did not touch are kept, the others are replaced or added.
pub fn merge_files(current: &FileMap, partial: &FileMap) -> (r: FileMap)
    ensures
        r@ == merged(current@, partial@),
{
    let mut r = current.copy();
    let n = partial.len();
    let mut i: usize = 0;
    while i < n
        invariant
            n == partial@.len(),
            i <= n,
            r@ == merge_entries(current@, partial@, i as int),
        decreases n - i,
    {
        let (p, c) = partial.entry(i);
        r.insert(p.clone(), c.clone());
        i = i + 1;
    }
    r
}

proof fn lemma_merge_prefix(cur: Entries, part: Entries, n: int, k: Seq<char>)
    requires
        sorted_paths(cur),
        sorted_paths(part),
        0 <= n <= part.len(),
    ensures
        sorted_paths(merge_entries(cur, part, n)),
        forall|i: int| 0 <= i < n && (#[trigger] part[i]).0 == k ==> lookup(merge_entries(cur, part, n), k) == Some(part[i].1),
        (forall|i: int| 0 <= i < n ==> (#[trigger] part[i]).0 != k) ==> lookup(merge_entries(cur, part, n), k) == lookup(cur, k),
    decreases n,
{
    if n > 0 {
        lemma_merge_prefix(cur, part, n - 1, k);
        let m = merge_entries(cur, part, n - 1);
        lemma_insert_entry_sorted(m, part[n - 1].0, part[n - 1].1);
        law_insert_lookup(m, part[n - 1].0, part[n - 1].1, k);
        assert forall|i: int| 0 <= i < n && (#[trigger] part[i]).0 == k implies lookup(merge_entries(cur, part, n), k) == Some(part[i].1) by {
            if i < n - 1 && part[n - 1].0 == k {
                lemma_lex_irrefl(k);
                assert(crate::files::lex_lt(part[i].0, part[n - 1].0));
            }
        }
    }
}

/// Merging keeps every file that the remediation did not return and takes
/// the remediation's content for every file it did.
pub proof fn law_merge_lookup(cur: Entries, part: Entries, path: Seq<char>)
    requires
        sorted_paths(cur),
        sorted_paths(part),
    ensures
        lookup(merged(cur, part), path) == match lookup(part, path) {
            Some(c) => Some(c),
            None => lookup(cur, path),
        },
{
    lemma_merge_prefix(cur, part, part.len() as int, path);
    if exists|i: int| 0 <= i < part.len() && (#[trigger] part[i]).0 == path {
        let i = choose|i: int| 0 <= i < part.len() && (#[trigger] part[i]).0 == path;
        lemma_lookup_at(part, i);
    } else {
        lemma_lookup_absent(part, path);
    }
}

// ── Languages ────────────────────────────────────────────────────────────────

/// The ASCII lowercase of a character; other characters are unchanged.
pub open spec fn ascii_lower(c: char) -> char {
    if 'A' <= c && c <= 'Z' {
        ((c as u32) + 32) as char
    } else {
        c
    }
}

/// An ASCII case-insensitive match (std's `str::eq_ignore_ascii_case`).
pub open spec fn eq_ignore_ascii_case(a: Seq<char>, b: Seq<char>) -> bool {
    a.len() == b.len() && forall|i: int| 0 <= i < a.len() ==> ascii_lower(#[trigger] a[i]) == ascii_lower(b[i])
}

fn ascii_lower_exec(c: char) -> (r: char)
    ensures
        r == ascii_lower(c),
{
    if 'A' <= c && c <= 'Z' {
        ((c as u32) + 32) as u8 as char
    } else {
        c
    }
}

/// `eq_ignore_ascii_case(a, b)`.
pub fn equals_ignore_ascii_case(a: &str, b: &str) -> (r: bool)
    ensures
        r == eq_ignore_ascii_case(a@, b@),
{
    let x = to_chars(a);
    let y = to_chars(b);
    if x.len() != y.len() {
        return false;
    }
    let mut i: usize = 0;
    while i < x.len()
        invariant
            x@ == a@,
            y@ == b@,
            x@.len() == y@.len(),
            i <= x@.len(),
            forall|j: int| 0 <= j < i ==> ascii_lower(#[trigger] x@[j]) == ascii_lower(y@[j]),
        decreases x.len() - i,
    {
        if ascii_lower_exec(x[i]) != ascii_lower_exec(y[i]) {
            return false;
        }
        i = i + 1;
    }
    true
}

// ── Prompts ──────────────────────────────────────────────────────────────────

/// Debug formatting of a list of strings, as std's `{:?}` prints a
/// `[String]`: quoted, escaped, comma-separated, in brackets.
pub uninterp spec fn debug_strings(items: Seq<Seq<char>>) -> Seq<char>;

/// Formats `items` with std's `Debug` (`{:?}`); the text depends on the
/// strings alone.
#[verifier::external_body]
fn debug_list(items: &[String]) -> (r: String)
    ensures
        r@ == debug_strings(string_views(items@)),
{
    format!("{:?}", items)
}

/// The workspace paragraph of the architect's prompt.
pub open spec fn workspace_instructions(is_rust: bool) -> Seq<char> {
    if is_rust {
        "The project will be compiled as a Cargo workspace using `cargo build` and `cargo run`.\n\
         You MUST specify the exact Cargo.toml contents requirements (package name, edition, \
         any dependencies if needed). The code runs natively on the host machine (Apple M1).\n\
         You MUST output a DIRECTORY STRUCTURE showing every file that must be created."@
    } else {
        "You MUST output a DIRECTORY STRUCTURE showing every file that must be created."@
    }
}

/// The architect's prompt: a strict blueprint for `task` in `language`.
pub open spec fn architect_prompt(task: Seq<char>, language: Seq<char>, is_rust: bool) -> Seq<char> {
    "You are THE ARCHITECT — an elite systems designer specializing in \
        high-performance "@ + language + ".\n\n\
        Your job is to produce a STRICT PROJECT BLUEPRINT for the following task.\n\n\
        You must output:\n\
        1. DIRECTORY STRUCTURE: A tree listing every file path (e.g., Cargo.toml, src/main.rs, \
           src/handlers.rs).\n\
        2. FILE MANIFEST: For each file, describe its exact purpose and the types/functions \
           it must contain.\n\
        3. DATA STRUCTURES: Exact struct/type definitions with field types.\n\
        4. ALGORITHM: Step-by-step numbered breakdown.\n\
        5. EDGE CASES: Invariants that must be handled.\n\n\
        RULES:\n\
        - Do NOT write any "@ + language + " code. Only the blueprint.\n\
        - Be extremely specific. Ambiguity kills downstream agents.\n\
        - "@ + workspace_instructions(is_rust)
        + "\n\n\
        TASK:\n"@ + task + "\n"@
}

/// Builds `architect_prompt(task, language, is_rust)`.
pub fn build_architect_prompt(task: &str, language: &str, is_rust: bool) -> (r: String)
    ensures
        r@ == architect_prompt(task@, language@, is_rust),
{
    let ws = if is_rust {
        "The project will be compiled as a Cargo workspace using `cargo build` and `cargo run`.\n\
         You MUST specify the exact Cargo.toml contents requirements (package name, edition, \
         any dependencies if needed). The code runs natively on the host machine (Apple M1).\n\
         You MUST output a DIRECTORY STRUCTURE showing every file that must be created."
    } else {
        "You MUST output a DIRECTORY STRUCTURE showing every file that must be created."
    };
    let mut m = to_chars("You are THE ARCHITECT — an elite systems designer specializing in \
        high-performance ");
    push_str(&mut m, language);
    push_str(&mut m, ".\n\n\
        Your job is to produce a STRICT PROJECT BLUEPRINT for the following task.\n\n\
        You must output:\n\
        1. DIRECTORY STRUCTURE: A tree listing every file path (e.g., Cargo.toml, src/main.rs, \
           src/handlers.rs).\n\
        2. FILE MANIFEST: For each file, describe its exact purpose and the types/functions \
           it must contain.\n\
        3. DATA STRUCTURES: Exact struct/type definitions with field types.\n\
        4. ALGORITHM: Step-by-step numbered breakdown.\n\
        5. EDGE CASES: Invariants that must be handled.\n\n\
        RULES:\n\
        - Do NOT write any ");
    push_str(&mut m, language);
    push_str(&mut m, " code. Only the blueprint.\n\
        - Be extremely specific. Ambiguity kills downstream agents.\n\
        - ");
    push_str(&mut m, ws);
    push_str(&mut m, "\n\n\
        TASK:\n");
    push_str(&mut m, task);
    push_str(&mut m, "\n");
    assert(m@ =~= architect_prompt(task@, language@, is_rust));
    from_chars(m.as_slice())
}

/// The output-format paragraph of the coder's prompt.
pub open spec fn format_instructions(language: Seq<char>) -> Seq<char> {
    "OUTPUT FORMAT:\n\
         You must output ALL project files using this EXACT delimiter format:\n\n\
         [FILE: Cargo.toml]\n\
         ```toml\n\
         # cargo config here\n\
         ```\n\n\
         [FILE: src/main.rs]\n\
         ```"@ + lowercase(language) + "\n\
         // code here\n\
         ```\n\n\
         RULES:\n\
         - Output EVERY file specified in the Architect's blueprint.\n\
         - Each file MUST start with [FILE: path/to/file]\n\
         - Each file's content MUST be inside a fenced code block (``` ```).\n\
         - NO explanations. NO commentary outside the file blocks.\n\
         - Use ONLY the standard library unless the Architect explicitly specifies dependencies."@
}

/// The paragraph that restricts a remediation to the implicated files.
pub open spec fn delta_instructions(broken: Option<Seq<Seq<char>>>) -> Seq<char> {
    match broken {
        Some(files) => "DELTA REMEDIATION:\n\
             ONLY rewrite the following files: "@ + debug_strings(files) + ".\n\
             DO NOT output [FILE: ...] blocks for files that are not in this list.\n\
             Assume the other files are perfect.\n\n"@,
        None => seq![],
    }
}

/// The coder's prompt: a remediation prompt when both the previous output
/// and the error are given, the initial implementation prompt otherwise.
pub open spec fn coder_prompt(
    language: Seq<char>,
    plan: Seq<char>,
    previous: Option<Seq<char>>,
    error: Option<Seq<char>>,
    broken: Option<Seq<Seq<char>>>,
) -> Seq<char> {
    match (previous, error) {
        (Some(prev), Some(err)) => "You are THE CODER — an elite "@ + language + " implementation engineer.\n\n\
            You previously wrote the following project files:\n\
            ─────────────────────────────────────────────\n\
            "@ + prev + "\n\
            ─────────────────────────────────────────────\n\n\
            The workspace build/run FAILED with this error:\n\
            ```\n"@ + err
            + "\n```\n\n\
            The original ARCHITECT's blueprint was:\n\
            ─────────────────────────────────────────────\n\
            "@ + plan + "\n\
            ─────────────────────────────────────────────\n\n\
            CRITICAL CONTEXT ANCHORING:\n\
            Read the compiler errors carefully. The errors specify EXACTLY which file failed (e.g., --> src/handlers.rs:3:32).\n\
            You MUST map that error to the correct [FILE: ...] block.\n\
            Do NOT put imports or fixes in src/main.rs if the error explicitly occurred in src/handlers.rs.\n\
            Check your file boundaries.\n\n\
            "@ + delta_instructions(broken) + "\
            Fix ALL reported errors.\n\n\
            "@
            + format_instructions(language) + "\n"@,
        _ => "You are THE CODER — an elite "@ + language + " implementation engineer. You write flawless, \
            production-grade "@ + language + " code from architectural blueprints.\n\n\
            Below is the project blueprint from THE ARCHITECT. You must implement it \
            EXACTLY as specified.\n\n\
            ARCHITECT'S BLUEPRINT:\n\
            ─────────────────────────────────────────────\n\
            "@ + plan + "\n\
            ─────────────────────────────────────────────\n\n\
            "@
            + format_instructions(language) + "\n"@,
    }
}

/// The view of an optional string slice.
pub open spec fn opt_str(o: Option<&str>) -> Option<Seq<char>> {
    match o {
        Some(s) => Some(s@),
        None => None,
    }
}

/// The view of an optional list of strings.
pub open spec fn opt_strings(o: Option<&[String]>) -> Option<Seq<Seq<char>>> {
    match o {
        Some(v) => Some(string_views(v@)),
        None => None,
    }
}

/// Builds `coder_prompt`.
pub fn build_coder_prompt(
    language: &str,
    architecture_plan: &str,
    previous_output: Option<&str>,
    error_message: Option<&str>,
    broken_files: Option<&[String]>,
) -> (r: String)
    ensures
        r@ == coder_prompt(
            language@,
            architecture_plan@,
            opt_str(previous_output),
            opt_str(error_message),
            opt_strings(broken_files),
        ),
{
    let lower = crate::text::to_lowercase(language);
    let mut ffi = to_chars("OUTPUT FORMAT:\n\
         You must output ALL project files using this EXACT delimiter format:\n\n\
         [FILE: Cargo.toml]\n\
         ```toml\n\
         # cargo config here\n\
         ```\n\n\
         [FILE: src/main.rs]\n\
         ```");
    push_str(&mut ffi, lower.as_str());
    push_str(&mut ffi, "\n\
         // code here\n\
         ```\n\n\
         RULES:\n\
         - Output EVERY file specified in the Architect's blueprint.\n\
         - Each file MUST start with [FILE: path/to/file]\n\
         - Each file's content MUST be inside a fenced code block (``` ```).\n\
         - NO explanations. NO commentary outside the file blocks.\n\
         - Use ONLY the standard library unless the Architect explicitly specifies dependencies.");
    assert(ffi@ =~= format_instructions(language@));
    let mut delta: Vec<char> = Vec::new();
    match broken_files {
        Some(files) => {
            push_str(&mut delta, "DELTA REMEDIATION:\n\
             ONLY rewrite the following files: ");
            let d = debug_list(files);
            push_str(&mut delta, d.as_str());
            push_str(&mut delta, ".\n\
             DO NOT output [FILE: ...] blocks for files that are not in this list.\n\
             Assume the other files are perfect.\n\n");
        },
        None => {},
    }
    assert(delta@ =~= delta_instructions(opt_strings(broken_files)));
    match (previous_output, error_message) {
        (Some(prev), Some(error)) => {
            let mut m = to_chars("You are THE CODER — an elite ");
            push_str(&mut m, language);
            push_str(&mut m, " implementation engineer.\n\n\
            You previously wrote the following project files:\n\
            ─────────────────────────────────────────────\n\
            ");
            push_str(&mut m, prev);
            push_str(&mut m, "\n\
            ─────────────────────────────────────────────\n\n\
            The workspace build/run FAILED with this error:\n\
            ```\n");
            push_str(&mut m, error);
            push_str(&mut m, "\n```\n\n\
            The original ARCHITECT's blueprint was:\n\
            ─────────────────────────────────────────────\n\
            ");
            push_str(&mut m, architecture_plan);
            push_str(&mut m, "\n\
            ─────────────────────────────────────────────\n\n\
            CRITICAL CONTEXT ANCHORING:\n\
            Read the compiler errors carefully. The errors specify EXACTLY which file failed (e.g., --> src/handlers.rs:3:32).\n\
            You MUST map that error to the correct [FILE: ...] block.\n\
            Do NOT put imports or fixes in src/main.rs if the error explicitly occurred in src/handlers.rs.\n\
            Check your file boundaries.\n\n\
            ");
            push_all(&mut m, delta.as_slice());
            push_str(&mut m, "\
            Fix ALL reported errors.\n\n\
            ");
            push_all(&mut m, ffi.as_slice());
            push_str(&mut m, "\n");
            assert(m@ =~= coder_prompt(
                language@,
                architecture_plan@,
                opt_str(previous_output),
                opt_str(error_message),
                opt_strings(broken_files),
            ));
            from_chars(m.as_slice())
        },
        _ => {
            let mut m = to_chars("You are THE CODER — an elite ");
            push_str(&mut m, language);
            push_str(&mut m, " implementation engineer. You write flawless, \
            production-grade ");
            push_str(&mut m, language);
            push_str(&mut m, " code from architectural blueprints.\n\n\
            Below is the project blueprint from THE ARCHITECT. You must implement it \
            EXACTLY as specified.\n\n\
            ARCHITECT'S BLUEPRINT:\n\
            ─────────────────────────────────────────────\n\
            ");
            push_str(&mut m, architecture_plan);
            push_str(&mut m, "\n\
            ─────────────────────────────────────────────\n\n\
            ");
            push_all(&mut m, ffi.as_slice());
            push_str(&mut m, "\n");
            assert(m@ =~= coder_prompt(
                language@,
                architecture_plan@,
                opt_str(previous_output),
                opt_str(error_message),
                opt_strings(broken_files),
            ));
            from_chars(m.as_slice())
        },
    }
}

/// The critic's prompt: review the coder's files against the blueprint.
pub open spec fn critic_prompt(language: Seq<char>, plan: Seq<char>, coder_output: Seq<char>) -> Seq<char> {
    "You are THE CRITIC — an adversarial code review"@ + "er with zero tolerance for defects.\n\n\
        Below is a multi-file "@ + language + " project written "@ + "by THE CODER based on an architectural blueprint.\n\
        Your job is to AGGRESSIVELY review ALL files and output a REFINED, FINAL version.\n\n\
        REVIEW CHECKLIST:\n\
        1. CORRECTNESS: Does every file match the Architect's specification?\n\
        2. MEMORY SAFETY: Any panics, overflows, or resource leaks?\n\
        3. LOGIC FLAWS: Off-by-one errors, incorrect handling, missing edge cases?\n\
        4. INTER-FILE CONSISTENCY: Do module imports, function signatures, and types align?\n\
        5. BUILD COMPLIANCE: Will `cargo build` succeed? Are all modules declared?\n\
        6. OUTPUT: Does the program produce the expected stdout when run?\n\
        7. CROSS-FILE VERIFICATION: If src/main.rs calls a function in src/handlers.rs, ensure the module is publicly exported (`pub mod handlers;`) and that ALL necessary imports (like `TcpStream` or `io::Write`) are present in the EXACT file where they are used, not just in main.\n\n\
        ARCHITECT'S BLUEPRINT:\n\
        ─────────────────────────────────────────────\n\
        "@ + plan + "\n\
        ─────────────────────────────────────────────\n\n\
        CODER'S IMPLEMENTATION:\n\
        ─────────────────────────────────────────────\n\
        "@ + coder_output + "\n\
        ─────────────────────────────────────────────\n\n\
        OUTPUT FORMAT:\n\
        Return ALL files using the [FILE: path] delimiter format:\n\n\
        [FILE: path/to/file]\n\
        ```"@ + lowercase(
        language,
    ) + "\n\
        // refined code\n\
        ```\n\n\
        - Output EVERY file, even if unchanged.\n\
        - NO explanations. NO commentary outside file blocks.\n"@
}

/// Builds `critic_prompt`.
pub fn build_critic_prompt(language: &str, architecture_plan: &str, coder_output: &str) -> (r: String)
    ensures
        r@ == critic_prompt(language@, architecture_plan@, coder_output@),
{
    let lower = crate::text::to_lowercase(language);
    let mut m = to_chars("You are THE CRITIC — an adversarial code review");
    push_str(&mut m, "er with zero tolerance for defects.\n\n\
        Below is a multi-file ");
    push_str(&mut m, language);
    push_str(&mut m, " project written ");
    push_str(&mut m, "by THE CODER based on an architectural blueprint.\n\
        Your job is to AGGRESSIVELY review ALL files and output a REFINED, FINAL version.\n\n\
        REVIEW CHECKLIST:\n\
        1. CORRECTNESS: Does every file match the Architect's specification?\n\
        2. MEMORY SAFETY: Any panics, overflows, or resource leaks?\n\
        3. LOGIC FLAWS: Off-by-one errors, incorrect handling, missing edge cases?\n\
        4. INTER-FILE CONSISTENCY: Do module imports, function signatures, and types align?\n\
        5. BUILD COMPLIANCE: Will `cargo build` succeed? Are all modules declared?\n\
        6. OUTPUT: Does the program produce the expected stdout when run?\n\
        7. CROSS-FILE VERIFICATION: If src/main.rs calls a function in src/handlers.rs, ensure the module is publicly exported (`pub mod handlers;`) and that ALL necessary imports (like `TcpStream` or `io::Write`) are present in the EXACT file where they are used, not just in main.\n\n\
        ARCHITECT'S BLUEPRINT:\n\
        ─────────────────────────────────────────────\n\
        ");
    push_str(&mut m, architecture_plan);
    push_str(&mut m, "\n\
        ─────────────────────────────────────────────\n\n\
        CODER'S IMPLEMENTATION:\n\
        ─────────────────────────────────────────────\n\
        ");
    push_str(&mut m, coder_output);
    push_str(&mut m, "\n\
        ─────────────────────────────────────────────\n\n\
        OUTPUT FORMAT:\n\
        Return ALL files using the [FILE: path] delimiter format:\n\n\
        [FILE: path/to/file]\n\
        ```");
    push_str(&mut m, lower.as_str());
    push_str(&mut m, "\n\
        // refined code\n\
        ```\n\n\
        - Output EVERY file, even if unchanged.\n\
        - NO explanations. NO commentary outside file blocks.\n");
    assert(m@ =~= critic_prompt(language@, architecture_plan@, coder_output@));
    from_chars(m.as_slice())
}

// ── Workspace outcomes ───────────────────────────────────────────────────────

/// The error for a failed `cargo build`.
pub open spec fn build_failure_text(stderr: Seq<char>) -> Seq<char> {
    "[Build Error] cargo build failed:\n"@ + stderr
}

/// The error for a failed `cargo build`, from its standard error.
pub fn workspace_build_failure(stderr: &str) -> (r: String)
    ensures
        r@ == build_failure_text(stderr@),
{
    let mut m = to_chars("[Build Error] cargo build failed:\n");
    push_str(&mut m, stderr);
    from_chars(m.as_slice())
}

/// The outcome of `cargo run`: its standard output when it succeeded, an
/// error quoting both streams otherwise.
pub fn workspace_run_outcome(success: bool, stdout: String, stderr: &str) -> (r: Result<String, String>)
    ensures
        success ==> r == Ok::<String, String>(stdout),
        !success ==> (r matches Err(m) && m@ == "[Runtime Error] cargo run failed:\nstdout: "@ + stdout@
            + "\nstderr: "@ + stderr@),
{
    if success {
        return Ok(stdout);
    }
    let mut m = to_chars("[Runtime Error] cargo run failed:\nstdout: ");
    push_str(&mut m, stdout.as_str());
    push_str(&mut m, "\nstderr: ");
    push_str(&mut m, stderr);
    Err(from_chars(m.as_slice()))
}

// ── Workspace paths ──────────────────────────────────────────────────────────

/// A `..` component of `p` starts at index `i`.
pub open spec fn dotdot_at(p: Seq<char>, i: int) -> bool {
    &&& 0 <= i && i + 1 < p.len()
    &&& p[i] == '.' && p[i + 1] == '.'
    &&& i == 0 || p[i - 1] == '/'
    &&& i + 2 == p.len() || p[i + 2] == '/'
}

/// A relative path that stays inside the directory it is joined to: it does
/// not start at the root and has no `..` component.
pub open spec fn stays_inside(p: Seq<char>) -> bool {
    &&& !(p.len() > 0 && p[0] == '/')
    &&& forall|i: int| !#[trigger] dotdot_at(p, i)
}

/// The error for a file path that would leave the workspace.
pub open spec fn outside_workspace_text(p: Seq<char>) -> Seq<char> {
    "Refusing to write "@ + p + " outside the workspace"@
}

/// Accepts a file path that stays inside the workspace directory
/// (`stays_inside`); rejects an absolute path or one with a `..` component.
pub fn check_workspace_path(path: &str) -> (r: Result<(), String>)
    ensures
        stays_inside(path@) ==> r is Ok,
        !stays_inside(path@) ==> (r matches Err(m) && m@ == outside_workspace_text(path@)),
{
    let p = to_chars(path);
    let mut ok = !(p.len() > 0 && p[0] == '/');
    let mut i: usize = 0;
    while i < p.len() && ok
        invariant
            p@ == path@,
            i <= p@.len(),
            ok ==> forall|j: int| 0 <= j < i ==> !#[trigger] dotdot_at(p@, j),
            ok ==> !(p@.len() > 0 && p@[0] == '/'),
            !ok ==> !stays_inside(path@),
        decreases p.len() - i,
    {
        if i + 1 < p.len() && p[i] == '.' && p[i + 1] == '.' && (i == 0 || p[i - 1] == '/') && (i + 2 == p.len()
            || p[i + 2] == '/') {
            assert(dotdot_at(p@, i as int));
            ok = false;
        }
        i = i + 1;
    }
    if ok {
        assert forall|j: int| !#[trigger] dotdot_at(p@, j) by {
            if 0 <= j < i {
            }
        }
        Ok(())
    } else {
        let mut m = to_chars("Refusing to write ");
        push_str(&mut m, path);
        push_str(&mut m, " outside the workspace");
        Err(from_chars(m.as_slice()))
    }
}

// ── The pipeline ─────────────────────────────────────────────────────────────

/// The number of remediation rounds after the first workspace run.
pub const MAX_REMEDIATION_ROUNDS: usize = 3;

/// Where the pipeline stands.
pub enum SyndicateStage {
    /// Waiting for the architect's blueprint.
    Planning,
    /// Waiting for the coder's files.
    Coding,
    /// Waiting for the critic's review of the coder's files.
    Reviewing { initial: Entries },
    /// Waiting for the workspace run of a round (0 is the first submission).
    Running { round: nat },
    /// Waiting for the coder's fix of a round's error.
    RemediatingCoder { round: nat, error: Seq<char> },
    /// Waiting for the critic's review of the coder's fix.
    RemediatingCritic { round: nat, remediated: Entries },
    /// The pipeline has produced its result.
    Finished,
}

/// The abstract state of the pipeline.
pub struct SyndicateState {
    /// The target language as given.
    pub language: Seq<char>,
    /// Whether the language is Rust (ASCII case-insensitively).
    pub is_rust: bool,
    /// A text the program's output must contain, if any.
    pub expected: Option<Seq<char>>,
    /// The architect's blueprint.
    pub plan: Seq<char>,
    /// The files under test.
    pub current: Entries,
    /// Where the pipeline stands.
    pub stage: SyndicateStage,
}

impl SyndicateState {
    /// Rounds stay within the remediation budget.
    pub open spec fn wf(self) -> bool {
        &&& !self.is_rust ==> !(self.stage is Running || self.stage is RemediatingCoder
            || self.stage is RemediatingCritic)
        &&& match self.stage {
            SyndicateStage::Running { round } => round <= MAX_REMEDIATION_ROUNDS,
            SyndicateStage::RemediatingCoder { round, .. } => round < MAX_REMEDIATION_ROUNDS,
            SyndicateStage::RemediatingCritic { round, .. } => round < MAX_REMEDIATION_ROUNDS,
            _ => true,
        }
    }
}

/// What the caller must do next, abstractly.
pub enum SyndicateStep {
    /// Send this prompt to the model.
    Ask(Seq<char>),
    /// Build and run these files as a Cargo workspace.
    Run(Entries),
    /// The pipeline is over.
    Done(Result<Seq<char>, Seq<char>>),
}

/// What the caller must do next.
pub enum SyndicateAction {
    /// Send this prompt to the model and report its reply.
    AskLlm(String),
    /// Build and run these files as a Cargo workspace and report the outcome.
    RunWorkspace(FileMap),
    /// The pipeline is over: its output, or an error.
    Finished(Result<String, String>),
}

impl View for SyndicateAction {
    type V = SyndicateStep;

    open spec fn view(&self) -> SyndicateStep {
        match self {
            SyndicateAction::AskLlm(p) => SyndicateStep::Ask(p@),
            SyndicateAction::RunWorkspace(f) => SyndicateStep::Run(f@),
            SyndicateAction::Finished(Ok(s)) => SyndicateStep::Done(Ok(s@)),
            SyndicateAction::Finished(Err(e)) => SyndicateStep::Done(Err(e@)),
        }
    }
}

/// The error when the coder produced no file.
pub open spec fn coder_empty_message() -> Seq<char> {
    "THE CODER failed to produce any [FILE: ...] blocks."@
}

/// The error when the remediation coder produced no file.
pub open spec fn remediation_empty_message() -> Seq<char> {
    "Remediation Coder failed to produce any [FILE:] blocks."@
}

/// The error for an event the pipeline is not waiting for.
pub open spec fn syndicate_out_of_order_message() -> Seq<char> {
    "The pipeline is not waiting for this event."@
}

/// The error once every remediation round has failed.
pub open spec fn exhausted_text(last_error: Seq<char>) -> Seq<char> {
    "Syndicate exhausted all "@ + decimal(MAX_REMEDIATION_ROUNDS as nat) + " remediation rounds. Last error: "@
        + last_error
}

/// The error when the program's output lacks the expected text.
pub open spec fn logic_error_text(expected: Seq<char>, got: Seq<char>) -> Seq<char> {
    "[Logic Error] Expected output containing '"@ + expected + "', but got '"@ + got + "'"@
}

/// The state once finished.
pub open spec fn finish(s: SyndicateState) -> SyndicateState {
    SyndicateState { stage: SyndicateStage::Finished, ..s }
}

/// The first prompt of the pipeline and its state.
pub open spec fn syndicate_start(task: Seq<char>, language: Seq<char>, expected: Option<Seq<char>>) -> (SyndicateState, SyndicateStep) {
    let is_rust = eq_ignore_ascii_case(language, "rust"@);
    (
        SyndicateState { language, is_rust, expected, plan: seq![], current: seq![], stage: SyndicateStage::Planning },
        SyndicateStep::Ask(architect_prompt(task, language, is_rust)),
    )
}

/// What the pipeline does with a model reply (trimmed first).
pub open spec fn reply_step(s: SyndicateState, raw: Seq<char>) -> (SyndicateState, SyndicateStep) {
    let reply = trim(raw);
    match s.stage {
        SyndicateStage::Planning => (
            SyndicateState { plan: reply, stage: SyndicateStage::Coding, ..s },
            SyndicateStep::Ask(coder_prompt(s.language, reply, None, None, None)),
        ),
        SyndicateStage::Coding => {
            let files = parsed_files(reply);
            if files.len() == 0 {
                (finish(s), SyndicateStep::Done(Err(coder_empty_message())))
            } else {
                (
                    SyndicateState { stage: SyndicateStage::Reviewing { initial: files }, ..s },
                    SyndicateStep::Ask(critic_prompt(s.language, s.plan, formatted_files(files))),
                )
            }
        },
        SyndicateStage::Reviewing { initial } => {
            let critic = parsed_files(reply);
            let cur = if critic.len() == 0 {
                initial
            } else {
                critic
            };
            if !s.is_rust {
                (
                    SyndicateState { current: cur, stage: SyndicateStage::Finished, ..s },
                    SyndicateStep::Done(Ok(formatted_files(cur))),
                )
            } else {
                (
                    SyndicateState { current: cur, stage: SyndicateStage::Running { round: 0 }, ..s },
                    SyndicateStep::Run(cur),
                )
            }
        },
        SyndicateStage::RemediatingCoder { round, error } => {
            let rem = parsed_files(reply);
            if rem.len() == 0 {
                (finish(s), SyndicateStep::Done(Err(remediation_empty_message())))
            } else {
                (
                    SyndicateState {
                        stage: SyndicateStage::RemediatingCritic { round, remediated: rem },
                        ..s
                    },
                    SyndicateStep::Ask(critic_prompt(s.language, s.plan, formatted_files(rem))),
                )
            }
        },
        SyndicateStage::RemediatingCritic { round, remediated } => {
            let critic = parsed_files(reply);
            let partial = if critic.len() == 0 {
                remediated
            } else {
                critic
            };
            let cur = merged(s.current, partial);
            (
                SyndicateState { current: cur, stage: SyndicateStage::Running { round: round + 1 }, ..s },
                SyndicateStep::Run(cur),
            )
        },
        _ => (s, SyndicateStep::Done(Err(syndicate_out_of_order_message()))),
    }
}

/// What a failed round leads to: the end after the last round, otherwise a
/// remediation prompt that quotes the files and the error and, where the
/// error names files, restricts the fix to them.
pub open spec fn failure_step(s: SyndicateState, round: nat, err: Seq<char>) -> (SyndicateState, SyndicateStep) {
    if round == MAX_REMEDIATION_ROUNDS {
        (finish(s), SyndicateStep::Done(Err(exhausted_text(err))))
    } else {
        let broken = error_files(err);
        (
            SyndicateState { stage: SyndicateStage::RemediatingCoder { round, error: err }, ..s },
            SyndicateStep::Ask(
                coder_prompt(
                    s.language,
                    s.plan,
                    Some(formatted_files(s.current)),
                    Some(err),
                    if broken.len() > 0 {
                        Some(broken)
                    } else {
                        None
                    },
                ),
            ),
        )
    }
}

/// What the pipeline does with the outcome of a workspace run: success
/// (with the expected text in the trimmed output, when one is given) ends
/// it with the output; anything else is a failed round.
pub open spec fn workspace_step(s: SyndicateState, outcome: Result<Seq<char>, Seq<char>>) -> (SyndicateState, SyndicateStep) {
    match s.stage {
        SyndicateStage::Running { round } => match outcome {
            Ok(stdout) => match s.expected {
                None => (finish(s), SyndicateStep::Done(Ok(stdout))),
                Some(e) => if contains(trim(stdout), e) {
                    (finish(s), SyndicateStep::Done(Ok(stdout)))
                } else {
                    failure_step(s, round, logic_error_text(e, trim(stdout)))
                },
            },
            Err(err) => failure_step(s, round, err),
        },
        _ => (s, SyndicateStep::Done(Err(syndicate_out_of_order_message()))),
    }
}

/// The pipeline's invariant is kept by every event; a workspace run is only
/// requested for a Rust project, in a round within the remediation budget,
/// and each remediated run comes one round after the failed one.
pub proof fn law_syndicate_rounds(s: SyndicateState, reply: Seq<char>, outcome: Result<Seq<char>, Seq<char>>)
    requires
        s.wf(),
    ensures
        reply_step(s, reply).0.wf(),
        workspace_step(s, outcome).0.wf(),
        reply_step(s, reply).1 is Run ==> s.is_rust && match reply_step(s, reply).0.stage {
            SyndicateStage::Running { round } => round <= MAX_REMEDIATION_ROUNDS && (match s.stage {
                SyndicateStage::RemediatingCritic { round: r, .. } => round == r + 1,
                _ => round == 0,
            }),
            _ => false,
        },
        workspace_step(s, outcome).1 is Run ==> false,
{
}

/// A successful run ends the pipeline with its output exactly when the
/// expected text occurs in the trimmed output (or nothing is expected);
/// otherwise the run counts as failed and never ends the pipeline with
/// success.
pub proof fn law_expected_output(s: SyndicateState, stdout: Seq<char>)
    requires
        s.stage is Running,
    ensures
        s.expected is None ==> workspace_step(s, Ok(stdout)) == (finish(s), SyndicateStep::Done(Ok(stdout))),
        s.expected matches Some(e) && (exists|i: int| #[trigger] occurs_at(trim(stdout), e, i))
            ==> workspace_step(s, Ok(stdout)) == (finish(s), SyndicateStep::Done(Ok(stdout))),
        s.expected matches Some(e) && !(exists|i: int| #[trigger] occurs_at(trim(stdout), e, i))
            ==> !(workspace_step(s, Ok(stdout)).1 matches SyndicateStep::Done(Ok(_))),
{
    if let Some(e) = s.expected {
        lemma_contains_occurs(trim(stdout), e);
    }
}

enum Stage {
    Planning,
    Coding,
    Reviewing(FileMap),
    Running(usize),
    RemediatingCoder(usize, String),
    RemediatingCritic(usize, FileMap),
    Finished,
}

/// The decisions of the pipeline: the caller performs each returned action
/// and hands back its outcome.
pub struct SyndicateLoop {
    language: String,
    is_rust: bool,
    expected: Option<String>,
    plan: String,
    current: FileMap,
    stage: Stage,
}

impl View for SyndicateLoop {
    type V = SyndicateState;

    closed spec fn view(&self) -> SyndicateState {
        SyndicateState {
            language: self.language@,
            is_rust: self.is_rust,
            expected: crate::text::opt_view(self.expected),
            plan: self.plan@,
            current: self.current@,
            stage: match self.stage {
                Stage::Planning => SyndicateStage::Planning,
                Stage::Coding => SyndicateStage::Coding,
                Stage::Reviewing(f) => SyndicateStage::Reviewing { initial: f@ },
                Stage::Running(r) => SyndicateStage::Running { round: r as nat },
                Stage::RemediatingCoder(r, e) => SyndicateStage::RemediatingCoder { round: r as nat, error: e@ },
                Stage::RemediatingCritic(r, f) => SyndicateStage::RemediatingCritic { round: r as nat, remediated: f@ },
                Stage::Finished => SyndicateStage::Finished,
            },
        }
    }
}

fn string_of(s: &str) -> (r: String)
    ensures
        r@ == s@,
{
    from_chars(to_chars(s).as_slice())
}

impl SyndicateLoop {
    #[verifier::type_invariant]
    spec fn inv(self) -> bool {
        self@.wf()
    }

    /// Starts the pipeline for a task in a language, with an optional text
    /// the program's output must contain.
    pub fn start(task: &str, language: &str, expected_output: Option<&str>) -> (r: (SyndicateLoop, SyndicateAction))
        ensures
            (r.0@, r.1@) == syndicate_start(task@, language@, opt_str(expected_output)),
    {
        let is_rust = equals_ignore_ascii_case(language, "rust");
        let prompt = build_architect_prompt(task, language, is_rust);
        let expected = match expected_output {
            Some(e) => Some(string_of(e)),
            None => None,
        };
        let s = SyndicateLoop {
            language: string_of(language),
            is_rust,
            expected,
            plan: String::new(),
            current: FileMap::new(),
            stage: Stage::Planning,
        };
        (s, SyndicateAction::AskLlm(prompt))
    }

    /// The state satisfies its invariant.
    pub fn check_wf(&self)
        ensures
            self@.wf(),
    {
        proof {
            use_type_invariant(self);
        }
    }

    /// Takes a model reply (`reply_step`).
    pub fn on_llm_reply(self, reply: &str) -> (r: (SyndicateLoop, SyndicateAction))
        ensures
            (r.0@, r.1@) == reply_step(self@, reply@),
            r.0@.wf(),
    {
        proof {
            use_type_invariant(&self);
        }
        let ghost s = self@;
        let SyndicateLoop { language, is_rust, expected, plan, current, stage } = self;
        let t = trim_chars(to_chars(reply).as_slice());
        let reply = from_chars(t.as_slice());
        match stage {
            Stage::Planning => {
                let prompt = build_coder_prompt(language.as_str(), reply.as_str(), None, None, None);
                let next = SyndicateLoop { language, is_rust, expected, plan: reply, current, stage: Stage::Coding };
                (next, SyndicateAction::AskLlm(prompt))
            },
            Stage::Coding => {
                let files = parse_multi_file_output(reply.as_str());
                if files.is_empty() {
                    let next = SyndicateLoop { language, is_rust, expected, plan, current, stage: Stage::Finished };
                    (next, SyndicateAction::Finished(Err(string_of("THE CODER failed to produce any [FILE: ...] blocks."))))
                } else {
                    let shown = format_files_for_prompt(&files);
                    let prompt = build_critic_prompt(language.as_str(), plan.as_str(), shown.as_str());
                    let next = SyndicateLoop { language, is_rust, expected, plan, current, stage: Stage::Reviewing(files) };
                    (next, SyndicateAction::AskLlm(prompt))
                }
            },
            Stage::Reviewing(initial) => {
                let critic = parse_multi_file_output(reply.as_str());
                let cur = if critic.is_empty() {
                    initial
                } else {
                    critic
                };
                if !is_rust {
                    let out = format_files_for_prompt(&cur);
                    let next = SyndicateLoop { language, is_rust, expected, plan, current: cur, stage: Stage::Finished };
                    (next, SyndicateAction::Finished(Ok(out)))
                } else {
                    let run = cur.copy();
                    let next = SyndicateLoop { language, is_rust, expected, plan, current: cur, stage: Stage::Running(0) };
                    (next, SyndicateAction::RunWorkspace(run))
                }
            },
            Stage::RemediatingCoder(round, error) => {
                let rem = parse_multi_file_output(reply.as_str());
                if rem.is_empty() {
                    let next = SyndicateLoop { language, is_rust, expected, plan, current, stage: Stage::Finished };
                    (next, SyndicateAction::Finished(Err(string_of("Remediation Coder failed to produce any [FILE:] blocks."))))
                } else {
                    let shown = format_files_for_prompt(&rem);
                    let prompt = build_critic_prompt(language.as_str(), plan.as_str(), shown.as_str());
                    let next = SyndicateLoop {
                        language,
                        is_rust,
                        expected,
                        plan,
                        current,
                        stage: Stage::RemediatingCritic(round, rem),
                    };
                    (next, SyndicateAction::AskLlm(prompt))
                }
            },
            Stage::RemediatingCritic(round, remediated) => {
                let critic = parse_multi_file_output(reply.as_str());
                let partial = if critic.is_empty() {
                    remediated
                } else {
                    critic
                };
                let cur = merge_files(&current, &partial);
                let run = cur.copy();
                let next = SyndicateLoop { language, is_rust, expected, plan, current: cur, stage: Stage::Running(round + 1) };
                (next, SyndicateAction::RunWorkspace(run))
            },
            Stage::Running(round) => {
                let next = SyndicateLoop { language, is_rust, expected, plan, current, stage: Stage::Running(round) };
                (next, SyndicateAction::Finished(Err(string_of("The pipeline is not waiting for this event."))))
            },
            Stage::Finished => {
                let next = SyndicateLoop { language, is_rust, expected, plan, current, stage: Stage::Finished };
                (next, SyndicateAction::Finished(Err(string_of("The pipeline is not waiting for this event."))))
            },
        }
    }

    /// Takes the outcome of a workspace run: its standard output, or its
    /// error (`workspace_step`).
    pub fn on_workspace_result(self, outcome: Result<String, String>) -> (r: (SyndicateLoop, SyndicateAction))
        ensures
            (r.0@, r.1@) == workspace_step(
                self@,
                match outcome {
                    Ok(o) => Ok(o@),
                    Err(e) => Err(e@),
                },
            ),
            r.0@.wf(),
    {
        proof {
            use_type_invariant(&self);
        }
        let SyndicateLoop { language, is_rust, expected, plan, current, stage } = self;
        let round = match stage {
            Stage::Running(round) => round,
            other => {
                let next = SyndicateLoop { language, is_rust, expected, plan, current, stage: other };
                return (next, SyndicateAction::Finished(Err(string_of("The pipeline is not waiting for this event."))));
            },
        };
        let err = match outcome {
            Ok(stdout) => {
                match &expected {
                    None => {
                        let next = SyndicateLoop { language, is_rust, expected, plan, current, stage: Stage::Finished };
                        return (next, SyndicateAction::Finished(Ok(stdout)));
                    },
                    Some(e) => {
                        let trimmed = trim_chars(to_chars(stdout.as_str()).as_slice());
                        let ec = to_chars(e.as_str());
                        if crate::text::contains_chars(trimmed.as_slice(), ec.as_slice()) {
                            let next = SyndicateLoop { language, is_rust, expected, plan, current, stage: Stage::Finished };
                            return (next, SyndicateAction::Finished(Ok(stdout)));
                        }
                        let mut m = to_chars("[Logic Error] Expected output containing '");
                        push_all(&mut m, ec.as_slice());
                        push_str(&mut m, "', but got '");
                        push_all(&mut m, trimmed.as_slice());
                        push_str(&mut m, "'");
                        from_chars(m.as_slice())
                    },
                }
            },
            Err(e) => e,
        };
        if round == MAX_REMEDIATION_ROUNDS {
            let mut m = to_chars("Syndicate exhausted all ");
            crate::text::push_decimal(&mut m, MAX_REMEDIATION_ROUNDS as u64);
            push_str(&mut m, " remediation rounds. Last error: ");
            push_str(&mut m, err.as_str());
            let next = SyndicateLoop { language, is_rust, expected, plan, current, stage: Stage::Finished };
            return (next, SyndicateAction::Finished(Err(from_chars(m.as_slice()))));
        }
        let broken = extract_error_files(err.as_str());
        let shown = format_files_for_prompt(&current);
        let prompt = if broken.len() > 0 {
            build_coder_prompt(language.as_str(), plan.as_str(), Some(shown.as_str()), Some(err.as_str()), Some(broken.as_slice()))
        } else {
            build_coder_prompt(language.as_str(), plan.as_str(), Some(shown.as_str()), Some(err.as_str()), None)
        };
        let next = SyndicateLoop { language, is_rust, expected, plan, current, stage: Stage::RemediatingCoder(round, err) };
        (next, SyndicateAction::AskLlm(prompt))
    }
}

} // verus!
