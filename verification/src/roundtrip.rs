//! Reading back what was written in the model-facing formats: parsing the
//! text that `format_files_for_prompt` prints gives back the same files, and
//! extracting a ```rust block gives back the code written in it, for every
//! input that the format can carry unchanged; and collapsing whitespace a
//! second time changes nothing.

use vstd::prelude::*;

use crate::mhttp::{collapse_piece, collapse_pieces, collapsed, is_blank};
use crate::router::{extract_code_from, extracted_code};
use crate::syndicate::{collect_error_paths, error_files, error_path};
use crate::files::{insert_entry, lemma_lex_asym, lemma_lex_irrefl, lex_lt, sorted_paths, Entries};
use crate::syndicate::{
    fence_language, file_block, flush, format_entries, formatted_files, is_file_marker, marker_path,
    parse_lines, parse_step, parsed_files, strip_prefixes, strip_suffix_chars, ParseState,
};
use crate::text::{ends_with, find, is_ws, occurs_at, lemma_trim, lines, lines_from, starts_with, strip_cr, trim, trim_end, trim_start};

verus! {

// ── Lines of concatenated text ───────────────────────────────────────────────

/// The lines of `a + b`, where `a` ends with a line break, are those of `a`
/// followed by those of `b`.
proof fn lemma_lines_concat(a: Seq<char>, b: Seq<char>, cur: Seq<char>)
    requires
        a.len() > 0,
        a.last() == '\n',
    ensures
        lines_from(a + b, cur) == lines_from(a, cur) + lines_from(b, seq![]),
    decreases a.len(),
{
    let ab = a + b;
    assert(ab[0] == a[0]);
    assert(ab.drop_first() == a.drop_first() + b);
    if a[0] == '\n' {
        if a.len() == 1 {
            assert(a.drop_first() + b == b);
            assert(lines_from(a.drop_first(), seq![]) == Seq::<Seq<char>>::empty());
            assert(lines_from(a, cur) == seq![strip_cr(cur)]);
            assert(lines_from(ab, cur) == seq![strip_cr(cur)] + lines_from(b, seq![]));
        } else {
            lemma_lines_concat(a.drop_first(), b, seq![]);
            assert(lines_from(ab, cur) == seq![strip_cr(cur)] + lines_from(a.drop_first() + b, seq![]));
            assert(lines_from(a, cur) == seq![strip_cr(cur)] + lines_from(a.drop_first(), seq![]));
        }
    } else {
        lemma_lines_concat(a.drop_first(), b, cur.push(a[0]));
    }
}

/// A single line without a break, followed by one: one line.
proof fn lemma_lines_one(x: Seq<char>, cur: Seq<char>)
    requires
        forall|k: int| 0 <= k < x.len() ==> x[k] != '\n',
    ensures
        lines_from(x.push('\n'), cur) == seq![strip_cr(cur + x)],
    decreases x.len(),
{
    let t = x.push('\n');
    if x.len() == 0 {
        assert(t.drop_first() == Seq::<char>::empty());
        assert(cur + x == cur);
        assert(lines_from(t.drop_first(), seq![]) == Seq::<Seq<char>>::empty());
        assert(lines_from(t, cur) == seq![strip_cr(cur)] + Seq::<Seq<char>>::empty());
    } else {
        assert(t[0] == x[0]);
        assert(t.drop_first() == x.drop_first().push('\n'));
        lemma_lines_one(x.drop_first(), cur.push(x[0]));
        assert(cur.push(x[0]) + x.drop_first() == cur + x);
    }
}

/// A line break after text that does not end with one (nor with a carriage
/// return) adds no line.
proof fn lemma_lines_terminated(s: Seq<char>, cur: Seq<char>)
    requires
        (cur + s).len() > 0,
        (cur + s).last() != '\n',
        (cur + s).last() != '\r',
    ensures
        lines_from(s.push('\n'), cur) == lines_from(s, cur),
    decreases s.len(),
{
    let t = s.push('\n');
    if s.len() == 0 {
        assert(cur + s == cur);
        assert(t.drop_first() == Seq::<char>::empty());
        assert(lines_from(t.drop_first(), seq![]) == Seq::<Seq<char>>::empty());
        assert(lines_from(t, cur) == seq![strip_cr(cur)] + Seq::<Seq<char>>::empty());
        assert(strip_cr(cur) == cur);
    } else {
        assert(t[0] == s[0]);
        assert(t.drop_first() == s.drop_first().push('\n'));
        assert((cur + s).last() == s.last());
        if s[0] == '\n' {
            let rest = s.drop_first();
            assert(rest.len() > 0);
            assert(seq![] + rest == rest);
            assert(rest.last() == s.last());
            lemma_lines_terminated(rest, seq![]);
        } else {
            assert(cur.push(s[0]) + s.drop_first() == cur + s);
            lemma_lines_terminated(s.drop_first(), cur.push(s[0]));
        }
    }
}

// ── Joining lines ────────────────────────────────────────────────────────────

/// The lines, each followed by a line break.
spec fn joined(ls: Seq<Seq<char>>) -> Seq<char>
    decreases ls.len(),
{
    if ls.len() == 0 {
        seq![]
    } else {
        joined(ls.drop_last()) + ls.last() + seq!['\n']
    }
}

/// No carriage return stands right before a line break.
pub open spec fn no_crlf(s: Seq<char>) -> bool {
    forall|k: int| 0 <= k < s.len() - 1 ==> !(#[trigger] s[k] == '\r' && s[k + 1] == '\n')
}

proof fn lemma_joined_one(x: Seq<char>)
    ensures
        joined(seq![x]) == x + seq!['\n'],
{
    let one = seq![x];
    assert(one.drop_last() =~= Seq::<Seq<char>>::empty());
    assert(one.last() == x);
    assert(joined(one.drop_last()) == Seq::<char>::empty());
    assert(Seq::<char>::empty() + x == x);
}

proof fn lemma_joined_concat(a: Seq<Seq<char>>, b: Seq<Seq<char>>)
    ensures
        joined(a + b) == joined(a) + joined(b),
    decreases b.len(),
{
    if b.len() == 0 {
        assert(a + b == a);
        assert(joined(a) + joined(b) == joined(a));
    } else {
        lemma_joined_concat(a, b.drop_last());
        assert((a + b).drop_last() == a + b.drop_last());
        assert((a + b).last() == b.last());
    }
}

/// Joining the lines of a text that has no `\r\n` and does not end with a
/// line break gives the text back, with a final line break.
proof fn lemma_joined_lines(s: Seq<char>, cur: Seq<char>)
    requires
        (cur + s).len() > 0,
        (cur + s).last() != '\n',
        no_crlf(cur + s),
    ensures
        joined(lines_from(s, cur)) == cur + s + seq!['\n'],
    decreases s.len(),
{
    if s.len() == 0 {
        assert(cur + s == cur);
        assert(lines_from(s, cur) == seq![cur]);
        lemma_joined_one(cur);
    } else if s[0] == '\n' {
        let rest = s.drop_first();
        let whole = cur + s;
        assert(whole.last() == s.last());
        assert(rest.len() > 0);
        assert(seq![] + rest == rest);
        assert(rest.last() == s.last());
        assert(no_crlf(rest)) by {
            assert forall|k: int| 0 <= k < rest.len() - 1 implies !(#[trigger] rest[k] == '\r' && rest[k + 1] == '\n') by {
                assert(rest[k] == whole[cur.len() + 1 + k]);
                assert(rest[k + 1] == whole[cur.len() + 1 + k + 1]);
            }
        }
        lemma_joined_lines(rest, seq![]);
        if cur.len() > 0 {
            assert(whole[cur.len() - 1] == cur.last());
            assert(whole[cur.len() as int] == '\n');
        }
        assert(strip_cr(cur) == cur);
        let tail = lines_from(rest, seq![]);
        assert(lines_from(s, cur) == seq![cur] + tail);
        lemma_joined_concat(seq![cur], tail);
        lemma_joined_one(cur);
        assert(cur + s + seq!['\n'] == cur + seq!['\n'] + (rest + seq!['\n']));
    } else {
        assert(cur.push(s[0]) + s.drop_first() == cur + s);
        lemma_joined_lines(s.drop_first(), cur.push(s[0]));
    }
}

// ── Running the parser over lines ────────────────────────────────────────────

/// The parser's initial state.
spec fn parse_start() -> ParseState {
    ParseState { files: seq![], path: None, content: seq![], in_code: false }
}

/// The parser's state after reading the lines `ls` from state `st`.
spec fn run(st: ParseState, ls: Seq<Seq<char>>) -> ParseState
    decreases ls.len(),
{
    if ls.len() == 0 {
        st
    } else {
        parse_step(run(st, ls.drop_last()), ls.last())
    }
}

proof fn lemma_run_concat(st: ParseState, a: Seq<Seq<char>>, b: Seq<Seq<char>>)
    ensures
        run(st, a + b) == run(run(st, a), b),
    decreases b.len(),
{
    if b.len() == 0 {
        assert(a + b == a);
    } else {
        lemma_run_concat(st, a, b.drop_last());
        assert((a + b).drop_last() == a + b.drop_last());
        assert((a + b).last() == b.last());
    }
}

proof fn lemma_parse_lines_run(ls: Seq<Seq<char>>, n: int)
    requires
        0 <= n <= ls.len(),
    ensures
        parse_lines(ls, n) == run(parse_start(), ls.take(n)),
    decreases n,
{
    if n > 0 {
        lemma_parse_lines_run(ls, n - 1);
        assert(ls.take(n).drop_last() == ls.take(n - 1));
        assert(ls.take(n).last() == ls[n - 1]);
    } else {
        assert(ls.take(0) == Seq::<Seq<char>>::empty());
    }
}

/// Inside an open fenced block, ordinary lines are collected.
proof fn lemma_run_content(st: ParseState, ls: Seq<Seq<char>>)
    requires
        st.path is Some,
        st.in_code,
        forall|i: int| 0 <= i < ls.len() ==> !is_file_marker(#[trigger] ls[i]) && !starts_with(ls[i], "```"@),
    ensures
        run(st, ls) == (ParseState { content: st.content + joined(ls), ..st }),
    decreases ls.len(),
{
    if ls.len() == 0 {
        assert(st.content + joined(ls) == st.content);
    } else {
        lemma_run_content(st, ls.drop_last());
        assert(!is_file_marker(ls[ls.len() - 1]));
        assert(st.content + joined(ls.drop_last()) + ls.last() + seq!['\n'] == st.content + joined(ls));
    }
}

// ── One printed block ────────────────────────────────────────────────────────

/// A path that its `[FILE: path]` marker gives back unchanged: trimmed, on
/// one line, and not ending with `]`.
pub open spec fn plain_path(p: Seq<char>) -> bool {
    &&& trim(p) == p
    &&& !ends_with(p, "]"@)
    &&& forall|k: int| 0 <= k < p.len() ==> p[k] != '\n'
}

/// Content that a fenced block gives back unchanged: not empty, trimmed,
/// without `\r\n` line ends, and with no line that is a `[FILE: ...]` marker
/// or begins a code fence.
pub open spec fn plain_content(c: Seq<char>) -> bool {
    &&& c.len() > 0
    &&& trim(c) == c
    &&& no_crlf(c)
    &&& forall|i: int|
        0 <= i < lines(c).len() ==> !is_file_marker(#[trigger] lines(c)[i]) && !starts_with(lines(c)[i], "```"@)
}

/// Entries in path order whose paths and contents the format carries.
pub open spec fn plain_entries(es: Entries) -> bool {
    &&& sorted_paths(es)
    &&& forall|i: int| 0 <= i < es.len() ==> plain_path(#[trigger] es[i].0) && plain_content(es[i].1)
}

/// The marker line of a block.
spec fn marker_line(p: Seq<char>) -> Seq<char> {
    "[FILE: "@ + p + "]"@
}

/// The line that opens a block's fence.
spec fn fence_line(p: Seq<char>) -> Seq<char> {
    "```"@ + fence_language(p)
}

/// The lines of one printed block.
spec fn block_lines(p: Seq<char>, c: Seq<char>) -> Seq<Seq<char>> {
    seq![marker_line(p), fence_line(p)] + lines(c) + seq!["```"@, seq![]]
}

/// No fence language holds a line break or a carriage return.
proof fn lemma_fence_language(p: Seq<char>)
    ensures
        forall|k: int| 0 <= k < fence_language(p).len() ==> #[trigger] fence_language(p)[k] != '\n'
            && fence_language(p)[k] != '\r',
{
    reveal_strlit("rust");
    reveal_strlit("toml");
    reveal_strlit("python");
    reveal_strlit("go");
    reveal_strlit("javascript");
    reveal_strlit("typescript");
    reveal_strlit("json");
    reveal_strlit("yaml");
    reveal_strlit("");
}

/// The marker line names the path.
proof fn lemma_marker(p: Seq<char>)
    requires
        plain_path(p),
    ensures
        is_file_marker(marker_line(p)),
        marker_path(marker_line(p)) == p,
        forall|k: int| 0 <= k < marker_line(p).len() ==> #[trigger] marker_line(p)[k] != '\n',
        marker_line(p).last() == ']',
{
    reveal_strlit("[FILE: ");
    reveal_strlit("[FILE:");
    reveal_strlit("]");
    let m = marker_line(p);
    let tag = "[FILE:"@;
    assert(m.take(6) == tag);
    assert(m.skip(m.len() - 1) == "]"@);
    let s1 = m.skip(6);
    assert(s1 == seq![' '] + p + "]"@);
    assert(s1[0] == ' ');
    assert(!starts_with(s1, tag)) by {
        if starts_with(s1, tag) {
            assert(s1.take(6)[0] == tag[0]);
        }
    }
    assert(strip_prefixes(s1, tag) == s1);
    assert(strip_prefixes(m, tag) == s1);
    let s2 = seq![' '] + p;
    assert(s1.drop_last() == s2);
    if p.len() > 0 {
        assert(s2.last() == p.last());
        if p.last() == ']' {
            assert(p.skip(p.len() - 1) == "]"@);
        }
    }
    assert(strip_suffix_chars(s2, ']') == s2);
    assert(strip_suffix_chars(s1, ']') == s2);
    assert(s2.drop_first() == p);
    assert(trim_start(s2) == trim_start(p));
    assert(trim(s2) == trim(p));
    assert forall|k: int| 0 <= k < m.len() implies #[trigger] m[k] != '\n' by {
        if 7 <= k < 7 + p.len() {
            assert(m[k] == p[k - 7]);
        }
    }
}

/// A trimmed, non-empty text neither begins nor ends with whitespace.
proof fn lemma_trimmed_ends(c: Seq<char>)
    requires
        c.len() > 0,
        trim(c) == c,
    ensures
        !is_ws(c[0]),
        !is_ws(c.last()),
        c.last() != '\n',
        c.last() != '\r',
{
    lemma_trim(c);
}

/// A block's text, cut after each of its line breaks.
proof fn lemma_file_block_parts(p: Seq<char>, c: Seq<char>)
    ensures
        file_block(p, c) == marker_line(p).push('\n') + (fence_line(p).push('\n') + (c.push('\n') + ("```"@.push(
            '\n',
        ) + seq!['\n']))),
{
    reveal_strlit("[FILE: ");
    reveal_strlit("]");
    reveal_strlit("]\n```");
    reveal_strlit("\n");
    reveal_strlit("\n```\n\n");
    reveal_strlit("```");
    assert(file_block(p, c) =~= marker_line(p).push('\n') + (fence_line(p).push('\n') + (c.push('\n') + ("```"@.push(
        '\n',
    ) + seq!['\n']))));
}

/// One line without a break or a final carriage return, then a break.
proof fn lemma_single_line(x: Seq<char>)
    requires
        forall|k: int| 0 <= k < x.len() ==> x[k] != '\n',
        x.len() > 0 ==> x.last() != '\r',
    ensures
        lines(x.push('\n')) == seq![x],
{
    let none = Seq::<char>::empty();
    lemma_lines_one(x, none);
    assert(none + x == x);
}

/// The fence line has no line break and does not end with a carriage return.
proof fn lemma_fence_line(p: Seq<char>)
    ensures
        forall|k: int| 0 <= k < fence_line(p).len() ==> fence_line(p)[k] != '\n',
        fence_line(p).len() > 0 ==> fence_line(p).last() != '\r',
{
    reveal_strlit("```");
    lemma_fence_language(p);
    let f = fence_line(p);
    assert forall|k: int| 0 <= k < f.len() implies f[k] != '\n' && f[k] != '\r' by {
        if k >= 3 {
            assert(f[k] == fence_language(p)[k - 3]);
        }
    }
}

/// The text of a block is split into the block's lines.
#[verifier::spinoff_prover]
proof fn lemma_block_lines(p: Seq<char>, c: Seq<char>)
    requires
        plain_path(p),
        plain_content(c),
    ensures
        lines(file_block(p, c)) == block_lines(p, c),
{
    let m = marker_line(p);
    let f = fence_line(p);
    let close = "```"@;
    let none = Seq::<char>::empty();
    let a1 = m.push('\n');
    let a2 = f.push('\n');
    let a3 = c.push('\n');
    let a4 = close.push('\n');
    let a5 = seq!['\n'];
    let r4 = a4 + a5;
    let r3 = a3 + r4;
    let r2 = a2 + r3;
    lemma_file_block_parts(p, c);
    lemma_marker(p);
    lemma_fence_line(p);
    lemma_trimmed_ends(c);
    lemma_lines_concat(a1, r2, none);
    lemma_single_line(m);
    lemma_lines_concat(a2, r3, none);
    lemma_single_line(f);
    lemma_lines_concat(a3, r4, none);
    assert(none + c == c);
    lemma_lines_terminated(c, none);
    lemma_lines_concat(a4, a5, none);
    assert(close.len() == 3 && close.last() == '`' && forall|k: int| 0 <= k < close.len() ==> close[k] != '\n') by {
        reveal_strlit("```");
    }
    lemma_single_line(close);
    lemma_single_line(none);
    assert(none.push('\n') == a5);
    assert(lines(file_block(p, c)) == seq![m] + (seq![f] + (lines(c) + (seq![close] + seq![none]))));
    assert(block_lines(p, c) =~= seq![m] + (seq![f] + (lines(c) + (seq![close] + seq![none]))));
}

/// Reading a block's lines saves the file before it and leaves its own
/// path and content as the file being read.
proof fn lemma_run_block(st: ParseState, p: Seq<char>, c: Seq<char>)
    requires
        plain_path(p),
        plain_content(c),
    ensures
        run(st, block_lines(p, c)) == (ParseState {
            files: flush(st),
            path: Some(p),
            content: c + seq!['\n'],
            in_code: false,
        }),
{
    reveal_strlit("```");
    reveal_strlit("[FILE:");
    let m = marker_line(p);
    let f = fence_line(p);
    let close = "```"@;
    let none = Seq::<char>::empty();
    lemma_marker(p);
    let s1 = parse_step(st, m);
    assert(s1 == (ParseState { files: flush(st), path: Some(p), content: none, in_code: false }));
    assert(f.take(3) == close);
    assert(!is_file_marker(f)) by {
        if is_file_marker(f) {
            assert(f.take(6)[0] == "[FILE:"@[0]);
        }
    }
    let s2 = parse_step(s1, f);
    assert(s2 == (ParseState { in_code: true, ..s1 }));
    lemma_run_content(s2, lines(c));
    lemma_trimmed_ends(c);
    assert(none + c == c);
    lemma_joined_lines(c, none);
    assert(none + c == c);
    let s3 = run(s2, lines(c));
    assert(s3.content == none + (c + seq!['\n']));
    assert(none + (c + seq!['\n']) == c + seq!['\n']);
    assert(!is_file_marker(close)) by {
        if is_file_marker(close) {
            assert(close.take(6).len() == 6);
        }
    }
    assert(close.take(3) == close);
    let s4 = parse_step(s3, close);
    assert(s4 == (ParseState { files: flush(st), path: Some(p), content: c + seq!['\n'], in_code: false }));
    assert(!is_file_marker(none));
    assert(!starts_with(none, close));
    let s5 = parse_step(s4, none);
    assert(s5 == s4);
    let head = seq![m, f];
    let tail = seq![close, none];
    assert(block_lines(p, c) == head + lines(c) + tail);
    lemma_run_concat(st, head + lines(c), tail);
    lemma_run_concat(st, head, lines(c));
    assert(head.drop_last() == seq![m] && head.last() == f);
    assert(seq![m].drop_last() == Seq::<Seq<char>>::empty() && seq![m].last() == m);
    assert(run(st, Seq::<Seq<char>>::empty()) == st);
    assert(run(st, seq![m]) == parse_step(run(st, Seq::<Seq<char>>::empty()), m));
    assert(run(st, seq![m]) == s1);
    assert(run(st, head) == s2);
    assert(tail.drop_last() == seq![close] && tail.last() == none);
    assert(seq![close].drop_last() == Seq::<Seq<char>>::empty() && seq![close].last() == close);
    assert(run(s3, Seq::<Seq<char>>::empty()) == s3);
    assert(run(s3, seq![close]) == parse_step(run(s3, Seq::<Seq<char>>::empty()), close));
    assert(run(s3, seq![close]) == s4);
    assert(run(s3, tail) == s5);
}

// ── The whole text ───────────────────────────────────────────────────────────

proof fn lemma_format_ends(es: Entries, n: int)
    requires
        0 < n <= es.len(),
    ensures
        format_entries(es, n).len() > 0,
        format_entries(es, n).last() == '\n',
{
    reveal_strlit("\n```\n\n");
    let b = file_block(es[n - 1].0, es[n - 1].1);
    assert(b.last() == '\n');
    assert(format_entries(es, n) == format_entries(es, n - 1) + b);
}

proof fn lemma_lines_format(es: Entries, n: int)
    requires
        0 < n <= es.len(),
    ensures
        lines(format_entries(es, n)) == lines(format_entries(es, n - 1)) + lines(file_block(es[n - 1].0, es[n - 1].1)),
{
    let a = format_entries(es, n - 1);
    let b = file_block(es[n - 1].0, es[n - 1].1);
    assert(format_entries(es, n) == a + b);
    if n == 1 {
        assert(a == Seq::<char>::empty());
        assert(a + b == b);
        assert(lines(a) == Seq::<Seq<char>>::empty());
        assert(lines(a) + lines(b) == lines(b));
    } else {
        lemma_format_ends(es, n - 1);
        lemma_lines_concat(a, b, seq![]);
    }
}

/// Trimming a text that neither begins nor ends with whitespace, with a
/// line break after it, gives the text.
proof fn lemma_trim_newline(c: Seq<char>)
    requires
        c.len() > 0,
        !is_ws(c[0]),
        !is_ws(c.last()),
    ensures
        trim(c + seq!['\n']) == c,
{
    let t = c + seq!['\n'];
    assert(t[0] == c[0]);
    assert(trim_start(t) == t);
    assert(t.drop_last() == c);
    assert(t.last() == '\n');
    assert(is_ws(t.last()));
    assert(trim_end(c) == c);
    assert(trim_end(t) == trim_end(c));
}

/// Inserting a path beyond every present path appends it.
proof fn lemma_insert_last(es: Entries, path: Seq<char>, content: Seq<char>)
    requires
        forall|i: int| 0 <= i < es.len() ==> lex_lt(#[trigger] es[i].0, path),
    ensures
        insert_entry(es, path, content) == es.push((path, content)),
    decreases es.len(),
{
    if es.len() > 0 {
        assert(lex_lt(es[0].0, path));
        lemma_lex_asym(es[0].0, path);
        lemma_lex_irrefl(path);
        assert(es[0].0 != path);
        let rest = es.drop_first();
        assert forall|i: int| 0 <= i < rest.len() implies lex_lt(#[trigger] rest[i].0, path) by {
            assert(rest[i] == es[i + 1]);
        }
        lemma_insert_last(rest, path, content);
        assert(seq![es[0]] + rest.push((path, content)) == es.push((path, content)));
    }
}

/// Saving the block read last stores it after the blocks before it.
proof fn lemma_flush_block(es: Entries, n: int)
    requires
        plain_entries(es),
        0 < n <= es.len(),
    ensures
        flush(ParseState { files: es.take(n - 1), path: Some(es[n - 1].0), content: es[n - 1].1 + seq!['\n'], in_code: false })
            == es.take(n),
{
    let e = es[n - 1];
    assert(plain_path(e.0) && plain_content(e.1));
    lemma_trimmed_ends(e.1);
    lemma_trim_newline(e.1);
    let before = es.take(n - 1);
    assert forall|i: int| 0 <= i < before.len() implies lex_lt(#[trigger] before[i].0, e.0) by {
        assert(before[i] == es[i]);
    }
    lemma_insert_last(before, e.0, e.1);
    assert(before.push((e.0, e.1)) == es.take(n));
}

/// The parser's state after the first `n` printed blocks.
proof fn lemma_run_format(es: Entries, n: int)
    requires
        plain_entries(es),
        0 <= n <= es.len(),
    ensures
        n == 0 ==> run(parse_start(), lines(format_entries(es, n))) == parse_start(),
        n > 0 ==> run(parse_start(), lines(format_entries(es, n))) == (ParseState {
            files: es.take(n - 1),
            path: Some(es[n - 1].0),
            content: es[n - 1].1 + seq!['\n'],
            in_code: false,
        }),
    decreases n,
{
    if n == 0 {
        assert(format_entries(es, 0) == Seq::<char>::empty());
        assert(lines(format_entries(es, 0)) == Seq::<Seq<char>>::empty());
    } else {
        let e = es[n - 1];
        assert(plain_path(e.0) && plain_content(e.1));
        lemma_run_format(es, n - 1);
        lemma_lines_format(es, n);
        lemma_block_lines(e.0, e.1);
        let before = lines(format_entries(es, n - 1));
        lemma_run_concat(parse_start(), before, block_lines(e.0, e.1));
        let st = run(parse_start(), before);
        lemma_run_block(st, e.0, e.1);
        if n == 1 {
            assert(flush(st) == Seq::<(Seq<char>, Seq<char>)>::empty());
            assert(es.take(0) == Seq::<(Seq<char>, Seq<char>)>::empty());
        } else {
            lemma_flush_block(es, n - 1);
        }
    }
}

/// Parsing the printed form of a file set gives the file set back: for
/// entries in path order whose paths are trimmed, on one line and do not
/// end with `]`, and whose contents are non-empty, trimmed, free of `\r\n`
/// and of lines that are markers or fences,
/// `parse_multi_file_output(format_files_for_prompt(files))` holds exactly
/// the files it was printed from.
pub proof fn law_parse_format(es: Entries)
    requires
        plain_entries(es),
    ensures
        parsed_files(formatted_files(es)) == es,
{
    let t = formatted_files(es);
    let ls = lines(t);
    lemma_parse_lines_run(ls, ls.len() as int);
    assert(ls.take(ls.len() as int) == ls);
    let n = es.len() as int;
    lemma_run_format(es, n);
    if n == 0 {
        assert(es == Seq::<(Seq<char>, Seq<char>)>::empty());
    } else {
        lemma_flush_block(es, n);
        assert(es.take(n) == es);
    }
}

/// One file block, whatever language tag its opening fence carries, parses
/// to exactly that file: for a plain path `p`, plain content `c` and any tag
/// `t` without a line break, parsing
/// `"[FILE: p]\n```" + t + "\n" + c + "\n```\n"` gives `[(p, c)]`.
pub proof fn law_parse_single_file(p: Seq<char>, c: Seq<char>, t: Seq<char>)
    requires
        plain_path(p),
        plain_content(c),
        forall|k: int| 0 <= k < t.len() ==> t[k] != '\n',
    ensures
        parsed_files("[FILE: "@ + p + "]\n```"@ + t + "\n"@ + c + "\n```\n"@) == seq![(p, c)],
{
    reveal_strlit("[FILE: ");
    reveal_strlit("]\n```");
    reveal_strlit("\n");
    reveal_strlit("\n```\n");
    reveal_strlit("```");
    reveal_strlit("]");
    reveal_strlit("[FILE:");
    let none = Seq::<char>::empty();
    let close = "```"@;
    let m = marker_line(p);
    let f = close + t;
    let a1 = m.push('\n');
    let a2 = f.push('\n');
    let a3 = c.push('\n');
    let a4 = close.push('\n');
    let text = "[FILE: "@ + p + "]\n```"@ + t + "\n"@ + c + "\n```\n"@;
    assert(text =~= a1 + (a2 + (a3 + a4)));
    lemma_marker(p);
    lemma_trimmed_ends(c);
    assert forall|k: int| 0 <= k < f.len() implies f[k] != '\n' by {
        if k >= 3 {
            assert(f[k] == t[k - 3]);
        }
    }
    lemma_lines_concat(a1, a2 + (a3 + a4), none);
    lemma_single_line(m);
    lemma_lines_concat(a2, a3 + a4, none);
    lemma_lines_one(f, none);
    assert(none + f == f);
    let g = strip_cr(f);
    lemma_lines_concat(a3, a4, none);
    assert(none + c == c);
    lemma_lines_terminated(c, none);
    assert(close.len() == 3 && close.last() == '`' && forall|k: int| 0 <= k < close.len() ==> close[k] != '\n');
    lemma_single_line(close);
    let ls = lines(text);
    assert(ls == seq![m] + (seq![g] + (lines(c) + seq![close])));
    // The parser over these lines.
    let st0 = parse_start();
    let s1 = parse_step(st0, m);
    assert(flush(st0) == Seq::<(Seq<char>, Seq<char>)>::empty());
    assert(s1 == (ParseState { files: seq![], path: Some(p), content: none, in_code: false }));
    assert(g.len() >= 3 && g.take(3) =~= close) by {
        assert(f.take(3) =~= close);
    }
    assert(!is_file_marker(g)) by {
        if is_file_marker(g) {
            assert(g.take(6)[0] == "[FILE:"@[0]);
        }
    }
    let s2 = parse_step(s1, g);
    assert(s2 == (ParseState { in_code: true, ..s1 }));
    lemma_run_content(s2, lines(c));
    lemma_joined_lines(c, none);
    let s3 = run(s2, lines(c));
    assert(none + (c + seq!['\n']) == c + seq!['\n']);
    assert(!is_file_marker(close)) by {
        if is_file_marker(close) {
            assert(close.take(6).len() == 6);
        }
    }
    assert(close.take(3) == close);
    let s4 = parse_step(s3, close);
    assert(s4 == (ParseState { files: seq![], path: Some(p), content: c + seq!['\n'], in_code: false }));
    let head = seq![m, g];
    assert(ls == head + lines(c) + seq![close]);
    lemma_run_concat(st0, head + lines(c), seq![close]);
    lemma_run_concat(st0, head, lines(c));
    assert(head.drop_last() == seq![m] && head.last() == g);
    assert(seq![m].drop_last() == Seq::<Seq<char>>::empty() && seq![m].last() == m);
    assert(run(st0, Seq::<Seq<char>>::empty()) == st0);
    assert(run(st0, seq![m]) == s1);
    assert(run(st0, head) == s2);
    assert(seq![close].drop_last() == Seq::<Seq<char>>::empty() && seq![close].last() == close);
    assert(run(s3, Seq::<Seq<char>>::empty()) == s3);
    assert(run(s3, seq![close]) == s4);
    lemma_parse_lines_run(ls, ls.len() as int);
    assert(ls.take(ls.len() as int) == ls);
    assert(parse_lines(ls, ls.len() as int) == s4);
    lemma_trim_newline(c);
    assert(insert_entry(Seq::<(Seq<char>, Seq<char>)>::empty(), p, c) == seq![(p, c)]);
}

// ── Code blocks ──────────────────────────────────────────────────────────────

/// Joining the lines of a text that ends with a line break and has no
/// `\r\n` gives the text back.
proof fn lemma_joined_terminated(t: Seq<char>, cur: Seq<char>)
    requires
        t.len() > 0,
        t.last() == '\n',
        no_crlf(cur + t),
        forall|k: int| 0 <= k < cur.len() ==> cur[k] != '\n',
    ensures
        joined(lines_from(t, cur)) == cur + t,
    decreases t.len(),
{
    let whole = cur + t;
    if t[0] == '\n' {
        let rest = t.drop_first();
        if cur.len() > 0 {
            assert(whole[cur.len() - 1] == cur.last());
            assert(whole[cur.len() as int] == '\n');
        }
        assert(strip_cr(cur) == cur);
        let tail = lines_from(rest, seq![]);
        assert(lines_from(t, cur) == seq![cur] + tail);
        lemma_joined_concat(seq![cur], tail);
        lemma_joined_one(cur);
        if rest.len() == 0 {
            assert(tail == Seq::<Seq<char>>::empty());
            assert(joined(tail) == Seq::<char>::empty());
            assert(t == seq!['\n']);
        } else {
            assert(rest.last() == t.last());
            assert(seq![] + rest == rest);
            assert(no_crlf(rest)) by {
                assert forall|k: int| 0 <= k < rest.len() - 1 implies !(#[trigger] rest[k] == '\r' && rest[k + 1] == '\n') by {
                    assert(rest[k] == whole[cur.len() + 1 + k]);
                    assert(rest[k + 1] == whole[cur.len() + 1 + k + 1]);
                }
            }
            lemma_joined_terminated(rest, seq![]);
        }
        assert(cur + t == cur + seq!['\n'] + rest);
    } else {
        assert(t.len() > 1);
        assert(cur.push(t[0]) + t.drop_first() == cur + t);
        assert(t.drop_first().last() == t.last());
        lemma_joined_terminated(t.drop_first(), cur.push(t[0]));
    }
}

/// Code that a ```rust block carries unchanged: every line of it ends with a
/// line break, it has no `\r\n`, and no line of it begins a fence.
pub open spec fn plain_code(code: Seq<char>) -> bool {
    &&& code.len() == 0 || code.last() == '\n'
    &&& no_crlf(code)
    &&& forall|i: int| 0 <= i < lines(code).len() ==> !starts_with(#[trigger] lines(code)[i], "```"@)
}

/// Inside an open block, the lines up to the closing fence are collected.
proof fn lemma_extract_body(ls: Seq<Seq<char>>, body: Seq<Seq<char>>, k: int)
    requires
        0 <= k <= body.len(),
        ls.len() > body.len() + 1,
        forall|i: int| 0 <= i < body.len() ==> ls[1 + i] == #[trigger] body[i],
        forall|i: int| 0 <= i < body.len() ==> !starts_with(#[trigger] body[i], "```"@),
        ls[body.len() + 1int] == "```"@,
    ensures
        extract_code_from(ls, 1 + k, true, joined(body.take(k))) == Some(joined(body)),
    decreases body.len() - k,
{
    reveal_strlit("```");
    reveal_strlit("```rust");
    if k == body.len() {
        assert(body.take(k) == body);
        assert(!starts_with("```"@, "```rust"@));
        assert("```"@.take(3) == "```"@);
    } else {
        let line = body[k];
        assert(ls[1 + k] == line);
        assert(!starts_with(line, "```rust"@)) by {
            if starts_with(line, "```rust"@) {
                assert(line.take(3) == "```rust"@.take(3));
                assert("```rust"@.take(3) == "```"@);
            }
        }
        lemma_extract_body(ls, body, k + 1);
        assert(body.take(k + 1).drop_last() == body.take(k));
        assert(body.take(k + 1).last() == line);
        assert(joined(body.take(k + 1)) == joined(body.take(k)) + line + seq!['\n']);
    }
}

/// A ```rust block gives back the code written in it, whatever follows the
/// block: for code whose lines all end with a line break, without `\r\n`
/// and with no line that begins a fence, `extract_rust_code` of
/// "```rust\n" + code + "```\n" + rest is the code.
pub proof fn law_extract_code_block(code: Seq<char>, rest: Seq<char>)
    requires
        plain_code(code),
    ensures
        extracted_code("```rust\n"@ + code + "```\n"@ + rest) == Some(code),
{
    reveal_strlit("```rust\n");
    reveal_strlit("```\n");
    reveal_strlit("```rust");
    reveal_strlit("```");
    let none = Seq::<char>::empty();
    let open = "```rust"@;
    let close = "```"@;
    let a = open.push('\n');
    let c = close.push('\n');
    assert("```rust\n"@ == a);
    assert("```\n"@ == c);
    let text = a + code + c + rest;
    assert(text == a + (code + (c + rest)));
    lemma_lines_concat(a, code + (c + rest), none);
    lemma_single_line(open);
    lemma_lines_concat(c, rest, none);
    lemma_single_line(close);
    let body = lines(code);
    if code.len() == 0 {
        assert(code + (c + rest) == c + rest);
        assert(body == Seq::<Seq<char>>::empty());
    } else {
        lemma_lines_concat(code, c + rest, none);
    }
    let ls = lines(text);
    assert(ls == seq![open] + (body + (seq![close] + lines(rest))));
    assert forall|i: int| 0 <= i < body.len() implies ls[1 + i] == #[trigger] body[i] by {}
    assert(ls[body.len() + 1int] == close);
    assert(ls[0] == open);
    assert(open.take(7) == open);
    lemma_extract_body(ls, body, 0);
    assert(body.take(0) == Seq::<Seq<char>>::empty());
    assert(joined(body.take(0)) == Seq::<char>::empty());
    if code.len() == 0 {
        assert(joined(body) == code);
    } else {
        assert(none + code == code);
        lemma_joined_terminated(code, none);
    }
}

/// Scanning the lines after a prefix of lines is scanning them alone.
proof fn lemma_extract_shift(pl: Seq<Seq<char>>, r: Seq<Seq<char>>, j: int, b: bool, code: Seq<char>)
    requires
        0 <= j,
    ensures
        extract_code_from(pl + r, pl.len() + j, b, code) == extract_code_from(r, j, b, code),
    decreases r.len() - j,
{
    let ls = pl + r;
    if j < r.len() {
        assert(ls[pl.len() + j] == r[j]);
        lemma_extract_shift(pl, r, j + 1, true, code);
        lemma_extract_shift(pl, r, j + 1, false, code);
        lemma_extract_shift(pl, r, j + 1, true, code + r[j] + seq!['\n']);
    }
}

/// Lines that open no ```rust block are passed over before a block opens.
proof fn lemma_extract_skip(pl: Seq<Seq<char>>, r: Seq<Seq<char>>, i: int)
    requires
        0 <= i <= pl.len(),
        forall|k: int| 0 <= k < pl.len() ==> !starts_with(#[trigger] pl[k], "```rust"@),
    ensures
        extract_code_from(pl + r, i, false, seq![]) == extract_code_from(pl + r, pl.len() as int, false, seq![]),
    decreases pl.len() - i,
{
    if i < pl.len() {
        assert((pl + r)[i] == pl[i]);
        lemma_extract_skip(pl, r, i + 1);
    }
}

/// Text before the ```rust block that opens no such block (it may hold
/// closed blocks in other languages) does not change what is extracted:
/// for a preamble `pre` that is empty or ends with a line break and has no
/// line starting with ```rust, and plain code, extracting from
/// `pre + "```rust\n" + code + "```\n" + rest` gives the code.
pub proof fn law_extract_after_preamble(pre: Seq<char>, code: Seq<char>, rest: Seq<char>)
    requires
        pre.len() == 0 || pre.last() == '\n',
        forall|i: int| 0 <= i < lines(pre).len() ==> !starts_with(#[trigger] lines(pre)[i], "```rust"@),
        plain_code(code),
    ensures
        extracted_code(pre + "```rust\n"@ + code + "```\n"@ + rest) == Some(code),
{
    let block = "```rust\n"@ + code + "```\n"@ + rest;
    law_extract_code_block(code, rest);
    let text = pre + "```rust\n"@ + code + "```\n"@ + rest;
    assert(text =~= pre + block);
    let pl = if pre.len() == 0 {
        Seq::<Seq<char>>::empty()
    } else {
        lines(pre)
    };
    if pre.len() == 0 {
        assert(pre + block =~= block);
        assert(lines(text) =~= pl + lines(block));
    } else {
        lemma_lines_concat(pre, block, seq![]);
    }
    assert(lines(text) == pl + lines(block));
    assert forall|k: int| 0 <= k < pl.len() implies !starts_with(#[trigger] pl[k], "```rust"@) by {
        assert(pl[k] == lines(pre)[k]);
    }
    lemma_extract_skip(pl, lines(block), 0);
    lemma_extract_shift(pl, lines(block), 0, false, seq![]);
    assert(pl.len() + 0 == pl.len());
}

// ── Collapsing twice ─────────────────────────────────────────────────────────

/// The lines that collapsing emits for the first `n` lines of `ls`: a blank
/// line that starts a run becomes an empty line, the rest of the run
/// nothing, and any other line its trimmed text.
spec fn emitted(ls: Seq<Seq<char>>, n: int) -> Seq<Seq<char>>
    decreases n,
{
    if n <= 0 {
        seq![]
    } else if is_blank(ls[n - 1]) {
        if n - 1 == 0 || !is_blank(ls[n - 2]) {
            emitted(ls, n - 1).push(seq![])
        } else {
            emitted(ls, n - 1)
        }
    } else {
        emitted(ls, n - 1).push(trim(ls[n - 1]))
    }
}

/// A line as collapsing emits it: without a line break, and empty or
/// neither beginning nor ending with whitespace.
spec fn line_ok(x: Seq<char>) -> bool {
    &&& x.len() == 0 || (!is_ws(x[0]) && !is_ws(x.last()))
    &&& forall|k: int| 0 <= k < x.len() ==> x[k] != '\n'
}

/// Emitted lines: each `line_ok`, and no two empty lines in a row.
spec fn good(m: Seq<Seq<char>>) -> bool {
    &&& forall|i: int| 0 <= i < m.len() ==> line_ok(#[trigger] m[i])
    &&& forall|i: int| 0 < i < m.len() && (#[trigger] m[i]).len() == 0 ==> m[i - 1].len() > 0
}

/// The text of the lines without the final line break.
spec fn body(m: Seq<Seq<char>>) -> Seq<char> {
    if m.len() == 0 {
        seq![]
    } else {
        joined(m).drop_last()
    }
}

/// The lines without a final empty one.
spec fn strip_last_empty(m: Seq<Seq<char>>) -> Seq<Seq<char>> {
    if m.len() > 0 && m.last().len() == 0 {
        m.drop_last()
    } else {
        m
    }
}

proof fn lemma_joined_push(m: Seq<Seq<char>>, x: Seq<char>)
    ensures
        joined(m.push(x)) == joined(m) + x + seq!['\n'],
{
    assert(m.push(x).drop_last() == m);
    assert(m.push(x).last() == x);
}

proof fn lemma_joined_ends(m: Seq<Seq<char>>)
    requires
        m.len() > 0,
    ensures
        joined(m).len() > 0,
        joined(m).last() == '\n',
{
}

/// The pieces of collapsing are the emitted lines, joined.
proof fn lemma_pieces_emitted(ls: Seq<Seq<char>>, n: int)
    requires
        0 <= n <= ls.len(),
    ensures
        collapse_pieces(ls, n) == joined(emitted(ls, n)),
    decreases n,
{
    if n > 0 {
        lemma_pieces_emitted(ls, n - 1);
        let e = emitted(ls, n - 1);
        let q = collapse_piece(ls, n - 1);
        assert(collapse_pieces(ls, n) == collapse_pieces(ls, n - 1) + q);
        if is_blank(ls[n - 1]) {
            if n - 1 == 0 || !is_blank(ls[n - 2]) {
                lemma_joined_push(e, seq![]);
                assert(joined(e) + Seq::<char>::empty() + seq!['\n'] == joined(e) + q);
            } else {
                assert(joined(e) + q == joined(e));
            }
        } else {
            lemma_joined_push(e, trim(ls[n - 1]));
            assert(q == trim(ls[n - 1]).push('\n'));
            assert(joined(e) + trim(ls[n - 1]) + seq!['\n'] == joined(e) + q);
        }
    }
}

/// A trimmed line is `line_ok`.
proof fn lemma_trim_line_ok(x: Seq<char>)
    requires
        forall|k: int| 0 <= k < x.len() ==> x[k] != '\n',
    ensures
        line_ok(trim(x)),
{
    let a = lemma_trim(x);
    let t = trim(x);
    assert forall|k: int| 0 <= k < t.len() implies t[k] != '\n' by {
        assert(t[k] == x[a + k]);
    }
}

/// The emitted lines are good, and the last one is empty exactly when the
/// last line read was blank.
proof fn lemma_emitted_good(ls: Seq<Seq<char>>, n: int)
    requires
        0 <= n <= ls.len(),
        forall|i: int, k: int| 0 <= i < ls.len() && 0 <= k < ls[i].len() ==> #[trigger] ls[i][k] != '\n',
    ensures
        good(emitted(ls, n)),
        emitted(ls, n).len() > 0 && emitted(ls, n).last().len() == 0 ==> n > 0 && is_blank(ls[n - 1]),
        n > 0 && !is_blank(ls[n - 1]) ==> emitted(ls, n).len() > 0 && emitted(ls, n).last().len() > 0,
    decreases n,
{
    if n > 0 {
        lemma_emitted_good(ls, n - 1);
        let e = emitted(ls, n - 1);
        let line = ls[n - 1];
        assert forall|k: int| 0 <= k < line.len() implies line[k] != '\n' by {
            assert(ls[n - 1][k] != '\n');
        }
        if is_blank(line) {
            if n - 1 == 0 || !is_blank(ls[n - 2]) {
                let r = e.push(seq![]);
                assert(line_ok(Seq::<char>::empty()));
                assert forall|i: int| 0 <= i < r.len() implies line_ok(#[trigger] r[i]) by {
                    if i < e.len() {
                        assert(r[i] == e[i]);
                    }
                }
                assert forall|i: int| 0 < i < r.len() && (#[trigger] r[i]).len() == 0 implies r[i - 1].len() > 0 by {
                    if i < e.len() {
                        assert(r[i] == e[i] && r[i - 1] == e[i - 1]);
                    } else {
                        assert(r[i - 1] == e.last());
                    }
                }
            }
        } else {
            let t = trim(line);
            lemma_trim_line_ok(line);
            let r = e.push(t);
            assert forall|i: int| 0 <= i < r.len() implies line_ok(#[trigger] r[i]) by {
                if i < e.len() {
                    assert(r[i] == e[i]);
                }
            }
            assert forall|i: int| 0 < i < r.len() && (#[trigger] r[i]).len() == 0 implies r[i - 1].len() > 0 by {
                assert(r[i] == e[i] && r[i - 1] == e[i - 1]);
            }
        }
    }
}

/// Good lines stay good without their last one.
proof fn lemma_good_drop_last(m: Seq<Seq<char>>)
    requires
        good(m),
        m.len() > 0,
    ensures
        good(m.drop_last()),
{
    let d = m.drop_last();
    assert forall|i: int| 0 <= i < d.len() implies line_ok(#[trigger] d[i]) by {
        assert(d[i] == m[i]);
    }
    assert forall|i: int| 0 < i < d.len() && (#[trigger] d[i]).len() == 0 implies d[i - 1].len() > 0 by {
        assert(d[i] == m[i] && d[i - 1] == m[i - 1]);
    }
}

/// Trimming the end of good joined lines leaves the text of the lines
/// without a final empty one.
proof fn lemma_trim_end_joined(m: Seq<Seq<char>>)
    requires
        good(m),
    ensures
        trim_end(joined(m)) == body(strip_last_empty(m)),
        good(strip_last_empty(m)),
        strip_last_empty(m).len() == 0 || strip_last_empty(m).last().len() > 0,
{
    if m.len() == 0 {
        assert(joined(m) == Seq::<char>::empty());
    } else {
        let d = m.drop_last();
        let x = m.last();
        lemma_good_drop_last(m);
        assert(line_ok(m[m.len() - 1]));
        let j = joined(m);
        assert(j == joined(d) + x + seq!['\n']);
        assert(j.drop_last() == joined(d) + x);
        assert(is_ws(j.last()));
        assert(trim_end(j) == trim_end(j.drop_last()));
        if x.len() == 0 {
            assert(joined(d) + x == joined(d));
            if d.len() == 0 {
                assert(joined(d) == Seq::<char>::empty());
            } else {
                assert(m[m.len() - 1].len() == 0);
                assert(m[m.len() - 2].len() > 0);
                assert(d.last() == m[m.len() - 2]);
                assert(line_ok(m[m.len() - 2]));
                let jd = joined(d);
                assert(jd == joined(d.drop_last()) + d.last() + seq!['\n']);
                assert(jd.drop_last() == joined(d.drop_last()) + d.last());
                assert(jd.drop_last().last() == d.last().last());
                assert(trim_end(jd) == trim_end(jd.drop_last()));
                assert(trim_end(jd.drop_last()) == jd.drop_last());
            }
        } else {
            assert((joined(d) + x).last() == x.last());
            assert(trim_end(joined(d) + x) == joined(d) + x);
        }
    }
}

/// Good lines are the lines of their joined text.
proof fn lemma_lines_joined(m: Seq<Seq<char>>)
    requires
        good(m),
    ensures
        lines(joined(m)) == m,
    decreases m.len(),
{
    if m.len() == 0 {
        assert(joined(m) == Seq::<char>::empty());
    } else {
        let d = m.drop_last();
        let x = m.last();
        lemma_good_drop_last(m);
        lemma_lines_joined(d);
        assert(line_ok(m[m.len() - 1]));
        assert(joined(m) == joined(d) + x.push('\n'));
        if x.len() > 0 {
            assert(x.last() != '\r');
        }
        lemma_single_line(x);
        if d.len() == 0 {
            assert(joined(d) == Seq::<char>::empty());
            assert(joined(d) + x.push('\n') == x.push('\n'));
        } else {
            lemma_joined_ends(d);
            lemma_lines_concat(joined(d), x.push('\n'), seq![]);
        }
        assert(m == d.push(x));
    }
}

/// Collapsing good lines emits them unchanged.
proof fn lemma_emitted_good_lines(m: Seq<Seq<char>>, n: int)
    requires
        good(m),
        0 <= n <= m.len(),
    ensures
        emitted(m, n) == m.take(n),
    decreases n,
{
    if n == 0 {
        assert(m.take(0) == Seq::<Seq<char>>::empty());
    } else {
        lemma_emitted_good_lines(m, n - 1);
        let x = m[n - 1];
        assert(line_ok(x));
        assert(m.take(n) == m.take(n - 1).push(x));
        if x.len() == 0 {
            assert(trim(x) == x);
            assert(is_blank(x));
            if n - 1 > 0 {
                assert(m[n - 2].len() > 0);
                let y = m[n - 2];
                assert(line_ok(y));
                assert(trim_start(y) == y);
                assert(trim_end(y) == y);
                assert(!is_blank(y));
            }
            assert(x == Seq::<char>::empty());
        } else {
            assert(trim_start(x) == x);
            assert(trim_end(x) == x);
            assert(!is_blank(x));
        }
    }
}

/// The collapsed text is the body of good lines that do not end with an
/// empty one, and those lines are its lines.
#[verifier::spinoff_prover]
#[verifier::rlimit(40)]
proof fn lemma_collapsed_body(s: Seq<char>) -> (m: Seq<Seq<char>>)
    ensures
        good(m),
        m.len() == 0 || m.last().len() > 0,
        collapsed(s) == body(m),
        lines(body(m)) == m,
{
    let ls = lines(s);
    crate::text::lemma_lines_no_newline(s);
    lemma_pieces_emitted(ls, ls.len() as int);
    lemma_emitted_good(ls, ls.len() as int);
    let e = emitted(ls, ls.len() as int);
    lemma_trim_end_joined(e);
    let m = strip_last_empty(e);
    if m.len() > 0 {
        lemma_lines_joined(m);
        let b = body(m);
        lemma_joined_ends(m);
        assert(joined(m) == b.push('\n'));
        let x = m.last();
        assert(line_ok(m[m.len() - 1]));
        assert(joined(m) == joined(m.drop_last()) + x + seq!['\n']);
        assert(b == joined(m.drop_last()) + x);
        assert(b.last() == x.last());
        assert(Seq::<char>::empty() + b == b);
        lemma_lines_terminated(b, seq![]);
    } else {
        assert(lines(Seq::<char>::empty()) == Seq::<Seq<char>>::empty());
    }
    m
}

/// Collapsing is idempotent: collapsing already collapsed text changes
/// nothing.
pub proof fn law_collapse_idempotent(s: Seq<char>)
    ensures
        collapsed(collapsed(s)) == collapsed(s),
{
    let m = lemma_collapsed_body(s);
    let c = collapsed(s);
    assert(lines(c) == m);
    lemma_pieces_emitted(m, m.len() as int);
    lemma_emitted_good_lines(m, m.len() as int);
    assert(m.take(m.len() as int) == m);
    lemma_trim_end_joined(m);
    assert(strip_last_empty(m) == m);
}

// ── Files named by a build log ──────────────────────────────────────────────

/// A path is collected exactly when some line read names it.
proof fn lemma_collect_member(ls: Seq<Seq<char>>, n: int, p: Seq<char>)
    requires
        0 <= n <= ls.len(),
    ensures
        collect_error_paths(ls, n).contains(p) <==> exists|k: int| 0 <= k < n && #[trigger] error_path(ls[k]) == Some(p),
    decreases n,
{
    if n > 0 {
        lemma_collect_member(ls, n - 1, p);
        let acc = collect_error_paths(ls, n - 1);
        match error_path(ls[n - 1]) {
            Some(q) => {
                if !acc.contains(q) {
                    assert(acc.push(q).contains(p) <==> (acc.contains(p) || q == p)) by {
                        if acc.push(q).contains(p) {
                            let j = choose|j: int| 0 <= j < acc.push(q).len() && acc.push(q)[j] == p;
                            if j < acc.len() {
                                assert(acc[j] == p);
                            }
                        }
                        if acc.contains(p) {
                            let j = choose|j: int| 0 <= j < acc.len() && acc[j] == p;
                            assert(acc.push(q)[j] == p);
                        }
                        if q == p {
                            assert(acc.push(q)[acc.len() as int] == p);
                        }
                    }
                }
            },
            None => {},
        }
    }
}

/// Every file that a log names stays named when other output comes before
/// it: the paths of `error_files(b)` all occur in
/// `error_files(a + "\n\n" + b)`, whatever `a` holds.
pub proof fn law_error_files_after_other_output(a: Seq<char>, b: Seq<char>, p: Seq<char>)
    ensures
        error_files(b).contains(p) ==> error_files(a + "\n\n"@ + b).contains(p),
{
    reveal_strlit("\n\n");
    let head = a + "\n\n"@;
    assert(head.last() == '\n');
    let t = a + "\n\n"@ + b;
    assert(t == head + b);
    lemma_lines_concat(head, b, seq![]);
    let l1 = lines_from(head, seq![]);
    let lb = lines(b);
    let lt = lines(t);
    assert(lt == l1 + lb);
    lemma_collect_member(lb, lb.len() as int, p);
    lemma_collect_member(lt, lt.len() as int, p);
    if error_files(b).contains(p) {
        let k = choose|k: int| 0 <= k < lb.len() && #[trigger] error_path(lb[k]) == Some(p);
        assert(lt[l1.len() + k] == lb[k]);
        assert(error_path(lt[l1.len() + k]) == Some(p));
    }
}

/// A text without line breaks is one line (when it is not empty).
proof fn lemma_one_line(s: Seq<char>, cur: Seq<char>)
    requires
        forall|k: int| 0 <= k < s.len() ==> s[k] != '\n',
        (cur + s).len() > 0,
    ensures
        lines_from(s, cur) == seq![cur + s],
    decreases s.len(),
{
    if s.len() == 0 {
        assert(cur + s == cur);
    } else {
        assert(cur.push(s[0]) + s.drop_first() == cur + s);
        lemma_one_line(s.drop_first(), cur.push(s[0]));
    }
}

/// A diagnostic line names the file after its arrow: for a line
/// `x + "--> " + p + ":" + y` where `x` has no `-`, the path `p` has no `:`
/// and is trimmed and not empty, and nothing holds a line break, the files
/// of that line are exactly `[p]`.
pub proof fn law_error_files_arrow_line(x: Seq<char>, p: Seq<char>, y: Seq<char>)
    requires
        forall|k: int| 0 <= k < x.len() ==> x[k] != '-' && x[k] != '\n',
        forall|k: int| 0 <= k < p.len() ==> p[k] != ':' && p[k] != '\n',
        forall|k: int| 0 <= k < y.len() ==> y[k] != '\n',
        p.len() > 0,
        trim(p) == p,
    ensures
        error_files(x + "--> "@ + p + ":"@ + y) == seq![p],
{
    reveal_strlit("--> ");
    reveal_strlit(":");
    let arrow = "--> "@;
    let colon = ":"@;
    let line = x + arrow + p + colon + y;
    assert forall|k: int| 0 <= k < line.len() implies line[k] != '\n' by {
        if k < x.len() {
            assert(line[k] == x[k]);
        } else if k < x.len() + 4 {
            assert(line[k] == arrow[k - x.len()]);
        } else if k < x.len() + 4 + p.len() {
            assert(line[k] == p[k - x.len() - 4]);
        } else if k < x.len() + 5 + p.len() {
            assert(line[k] == colon[k - x.len() - 4 - p.len()]);
        } else {
            assert(line[k] == y[k - x.len() - 5 - p.len()]);
        }
    }
    assert(Seq::<char>::empty() + line == line);
    lemma_one_line(line, seq![]);
    let ls = lines(line);
    assert(ls == seq![line]);
    // The arrow is found right after `x`.
    let i = x.len() as int;
    assert(line.subrange(i, i + 4) =~= arrow);
    assert(occurs_at(line, arrow, i));
    crate::text::lemma_find_first(line, arrow, 0, i);
    let k = find(line, arrow)->0;
    assert(line[k] == arrow[0]);
    if k < i {
        assert(line[k] == x[k]);
    }
    assert(k == i);
    let rest = line.skip(i + 4);
    assert(rest =~= p + colon + y);
    let j = p.len() as int;
    assert(rest.subrange(j, j + 1) =~= colon);
    crate::text::lemma_find_first(rest, colon, 0, j);
    let m = find(rest, colon)->0;
    assert(rest[m] == colon[0]);
    if m < j {
        assert(rest[m] == p[m]);
    }
    assert(m == j);
    assert(rest.take(j) =~= p);
    assert(error_path(line) == Some(p));
    assert(collect_error_paths(ls, 0) == Seq::<Seq<char>>::empty());
    assert(!Seq::<Seq<char>>::empty().contains(p));
    assert(Seq::<Seq<char>>::empty().push(p) =~= seq![p]);
}

} // verus!
