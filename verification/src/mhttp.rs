//! Text compression for fetched web pages: whitespace collapsing,
//! truncation to a character budget, and the decisions taken while fetching.

use vstd::prelude::*;

use crate::syndicate::ascii_lower;
use crate::text::{copy_range, decimal, push_decimal, push_str, utf8_len, utf8_length, contains, find, find_from, from_chars, is_ws, lemma_lines_no_newline, lemma_trim, lemma_trim_end, lines, occurs_at, push_all, split_lines, to_chars, trim, trim_chars, trim_end, trim_end_chars, views};

verus! {

// ── Whitespace collapse ─────────────────────────────────────────────────────

/// A line that is empty once trimmed.
pub open spec fn is_blank(line: Seq<char>) -> bool {
    trim(line).len() == 0
}

/// What line `i` of `ls` contributes to the collapsed text: a blank line
/// becomes a single line break when it starts a run of blank lines and
/// nothing otherwise; any other line becomes its trimmed text and a line
/// break.
pub open spec fn collapse_piece(ls: Seq<Seq<char>>, i: int) -> Seq<char> {
    if is_blank(ls[i]) {
        if i == 0 || !is_blank(ls[i - 1]) {
            seq!['\n']
        } else {
            seq![]
        }
    } else {
        trim(ls[i]).push('\n')
    }
}

/// The contributions of the first `n` lines, in order.
pub open spec fn collapse_pieces(ls: Seq<Seq<char>>, n: int) -> Seq<char>
    decreases n,
{
    if n <= 0 {
        seq![]
    } else {
        collapse_pieces(ls, n - 1) + collapse_piece(ls, n - 1)
    }
}

/// The collapsed form of `s`: every line trimmed, each run of blank lines
/// reduced to one, trailing whitespace removed.
pub open spec fn collapsed(s: Seq<char>) -> Seq<char> {
    trim_end(collapse_pieces(lines(s), lines(s).len() as int))
}

/// No three line breaks in a row (so at most one blank line between blocks).
pub open spec fn no_triple_newline(s: Seq<char>) -> bool {
    forall|i: int|
        0 <= i && i + 2 < s.len() ==> !(#[trigger] s[i] == '\n' && s[i + 1] == '\n' && s[i + 2]
            == '\n')
}

/// Every line of `s` is trimmed: whitespace other than a line break occurs
/// only strictly inside a line, never at its start or end.
pub open spec fn lines_trimmed(s: Seq<char>) -> bool {
    forall|i: int|
        0 <= i < s.len() && is_ws(#[trigger] s[i]) && s[i] != '\n' ==> 0 < i && i + 1 < s.len()
            && s[i - 1] != '\n' && s[i + 1] != '\n'
}

proof fn lemma_collapse_pieces(ls: Seq<Seq<char>>, n: int)
    requires
        0 <= n <= ls.len(),
        forall|i: int, k: int| 0 <= i < ls.len() && 0 <= k < ls[i].len() ==> #[trigger] ls[i][k] != '\n',
    ensures
        no_triple_newline(collapse_pieces(ls, n)),
        lines_trimmed(collapse_pieces(ls, n)),
        collapse_pieces(ls, n).len() == 0 || collapse_pieces(ls, n).last() == '\n',
        collapse_pieces(ls, n).len() >= 2 && collapse_pieces(ls, n)[collapse_pieces(ls, n).len() - 2] == '\n'
            ==> n > 0 && is_blank(ls[n - 1]),
    decreases n,
{
    if n > 0 {
        lemma_collapse_pieces(ls, n - 1);
        let p = collapse_pieces(ls, n - 1);
        let q = collapse_piece(ls, n - 1);
        let pp = collapse_pieces(ls, n);
        assert(pp == p + q);
        if is_blank(ls[n - 1]) {
            if n - 1 == 0 || !is_blank(ls[n - 2]) {
                assert(q == seq!['\n']);
                assert forall|i: int| 0 <= i && i + 2 < pp.len() implies !(#[trigger] pp[i] == '\n'
                    && pp[i + 1] == '\n' && pp[i + 2] == '\n') by {
                    if i + 2 < p.len() {
                        assert(pp[i] == p[i] && pp[i + 1] == p[i + 1] && pp[i + 2] == p[i + 2]);
                    } else {
                        assert(pp[i] == p[p.len() - 2]);
                    }
                }
                assert forall|i: int|
                    0 <= i < pp.len() && is_ws(#[trigger] pp[i]) && pp[i] != '\n' implies 0 < i && i + 1
                        < pp.len() && pp[i - 1] != '\n' && pp[i + 1] != '\n' by {
                    assert(i < p.len());
                    assert(pp[i] == p[i]);
                    assert(pp[i - 1] == p[i - 1]);
                    assert(pp[i + 1] == p[i + 1]);
                }
            } else {
                assert(q.len() == 0);
                assert(pp == p);
            }
        } else {
            let line = ls[n - 1];
            let t = trim(line);
            let a = lemma_trim(line);
            assert(q == t.push('\n'));
            assert forall|k: int| 0 <= k < t.len() implies #[trigger] t[k] != '\n' by {
                assert(t[k] == line[a + k]);
                assert(ls[n - 1][a + k] != '\n');
            }
            assert(!is_ws(t[0]) && !is_ws(t.last()));
            let pl = p.len() as int;
            assert forall|i: int| 0 <= i && i + 2 < pp.len() implies !(#[trigger] pp[i] == '\n'
                && pp[i + 1] == '\n' && pp[i + 2] == '\n') by {
                if i + 2 < pl {
                    assert(pp[i] == p[i] && pp[i + 1] == p[i + 1] && pp[i + 2] == p[i + 2]);
                } else if i + 2 < pl + t.len() {
                    assert(pp[i + 2] == t[i + 2 - pl]);
                } else {
                    assert(pp[i + 1] == t[i + 1 - pl]);
                }
            }
            assert forall|i: int|
                0 <= i < pp.len() && is_ws(#[trigger] pp[i]) && pp[i] != '\n' implies 0 < i && i + 1
                    < pp.len() && pp[i - 1] != '\n' && pp[i + 1] != '\n' by {
                if i < pl {
                    assert(pp[i] == p[i]);
                    assert(pp[i - 1] == p[i - 1]);
                    assert(pp[i + 1] == p[i + 1]);
                } else {
                    let k = i - pl;
                    assert(k < t.len());
                    assert(pp[i] == t[k]);
                    assert(k != 0);
                    assert(k != t.len() - 1);
                    assert(pp[i - 1] == t[k - 1]);
                    assert(pp[i + 1] == t[k + 1]);
                }
            }
            assert(pp[pp.len() - 2] == t.last());
        }
    }
}

/// A text without three line breaks in a row has no occurrence of them.
proof fn lemma_no_triple_not_found(s: Seq<char>, i: int)
    requires
        no_triple_newline(s),
        0 <= i,
    ensures
        find_from(s, "\n\n\n"@, i) is None,
    decreases s.len() + 1 - i,
{
    let p = "\n\n\n"@;
    reveal_strlit("\n\n\n");
    if i + p.len() <= s.len() {
        if occurs_at(s, p, i) {
            assert(s.subrange(i, i + 3)[0] == s[i]);
            assert(s.subrange(i, i + 3)[1] == s[i + 1]);
            assert(s.subrange(i, i + 3)[2] == s[i + 2]);
            assert(false);
        }
        lemma_no_triple_not_found(s, i + 1);
    }
}

/// The laws of the collapsed text: it never holds three line breaks in a
/// row, it does not end with whitespace, and no line of it begins or ends
/// with whitespace.
pub proof fn lemma_collapsed_shape(s: Seq<char>)
    ensures
        !contains(collapsed(s), "\n\n\n"@),
        collapsed(s).len() == 0 || !is_ws(collapsed(s).last()),
        lines_trimmed(collapsed(s)),
{
    let ls = lines(s);
    lemma_lines_no_newline(s);
    lemma_collapse_pieces(ls, ls.len() as int);
    let p = collapse_pieces(ls, ls.len() as int);
    lemma_trim_end(p);
    let out = collapsed(s);
    let m = out.len() as int;
    assert(out == p.take(m));
    assert forall|i: int| 0 <= i && i + 2 < out.len() implies !(#[trigger] out[i] == '\n'
        && out[i + 1] == '\n' && out[i + 2] == '\n') by {
        assert(out[i] == p[i] && out[i + 1] == p[i + 1] && out[i + 2] == p[i + 2]);
    }
    lemma_no_triple_not_found(out, 0);
    assert forall|i: int|
        0 <= i < out.len() && is_ws(#[trigger] out[i]) && out[i] != '\n' implies 0 < i && i + 1
            < out.len() && out[i - 1] != '\n' && out[i + 1] != '\n' by {
        assert(out[i] == p[i]);
        assert(i != m - 1);
        assert(out[i - 1] == p[i - 1]);
        assert(out[i + 1] == p[i + 1]);
    }
}

/// Collapses extraneous whitespace into dense text: trims every line, keeps
/// at most one blank line between blocks, and strips trailing whitespace.
pub fn collapse_whitespace(input: &str) -> (r: String)
    ensures
        r@ == collapsed(input@),
        !contains(r@, "\n\n\n"@),
        r@.len() == 0 || !is_ws(r@.last()),
        lines_trimmed(r@),
{
    proof {
        lemma_collapsed_shape(input@);
    }
    let chars = to_chars(input);
    let ls = split_lines(chars.as_slice());
    let ghost l = lines(input@);
    let mut result: Vec<char> = Vec::new();
    let mut consecutive_blank_lines: usize = 0;
    let mut i: usize = 0;
    while i < ls.len()
        invariant
            views(ls@) == l,
            l == lines(input@),
            i <= ls@.len(),
            result@ == collapse_pieces(l, i as int),
            consecutive_blank_lines <= i,
            (consecutive_blank_lines > 0) == (i > 0 && is_blank(l[i - 1])),
            result@.len() == 0 || result@.last() == '\n',
        decreases ls.len() - i,
    {
        assert(l[i as int] == ls@[i as int]@);
        let trimmed = trim_chars(ls[i].as_slice());
        let ghost before = result@;
        if trimmed.len() == 0 {
            consecutive_blank_lines = consecutive_blank_lines + 1;
            if consecutive_blank_lines <= 1 {
                result.push('\n');
            }
        } else {
            consecutive_blank_lines = 0;
            if result.len() > 0 && result[result.len() - 1] != '\n' {
                result.push('\n');
            }
            push_all(&mut result, trimmed.as_slice());
            result.push('\n');
        }
        assert(result@ == before + collapse_piece(l, i as int));
        i = i + 1;
    }
    let out = trim_end_chars(result.as_slice());
    from_chars(out.as_slice())
}

// ── Truncation ───────────────────────────────────────────────────────────────

/// The character budget of the compressed text.
pub const MAX_OUTPUT_CHARS: usize = 50_000;

/// The rendering width handed to the HTML-to-text renderer.
pub const RENDER_WIDTH: usize = 120;

/// The marker appended to a truncated text.
pub open spec fn truncation_notice() -> Seq<char> {
    "\n\n[TRUNCATED — exceeded 50,000 character limit]"@
}

/// The truncation notice has 47 characters.
pub proof fn lemma_notice_len()
    ensures
        truncation_notice().len() == 47,
{
    reveal_strlit("\n\n[TRUNCATED — exceeded 50,000 character limit]");
}

/// The text kept for a compressed page: the whole text when it has at most
/// `MAX_OUTPUT_CHARS` characters; otherwise its first `MAX_OUTPUT_CHARS`
/// characters followed by the truncation notice.
pub open spec fn truncated_output(s: Seq<char>) -> Seq<char> {
    if s.len() <= MAX_OUTPUT_CHARS {
        s
    } else {
        s.take(MAX_OUTPUT_CHARS as int) + truncation_notice()
    }
}

/// Cuts `text` to the character budget (`truncated_output`), with the
/// length in bytes of what is kept.
pub fn truncate_output(text: &[char]) -> (r: (Vec<char>, usize))
    ensures
        r.0@ == truncated_output(text@),
        r.1 == utf8_len(r.0@),
        r.0@.len() <= MAX_OUTPUT_CHARS + 47,
{
    proof {
        lemma_notice_len();
    }
    let out = if text.len() <= MAX_OUTPUT_CHARS {
        copy_range(text, 0, text.len())
    } else {
        let mut out = copy_range(text, 0, MAX_OUTPUT_CHARS);
        let notice = to_chars("\n\n[TRUNCATED — exceeded 50,000 character limit]");
        push_all(&mut out, notice.as_slice());
        out
    };
    assert(text@.subrange(0, text@.len() as int) == text@);
    let n = utf8_length(out.as_slice());
    (out, n)
}

// ── Numeric attributes ───────────────────────────────────────────────────────

/// `name` (lowercase ASCII) occurs at `i` in `h`, ignoring ASCII case.
pub open spec fn name_at(h: Seq<char>, i: int, name: Seq<char>) -> bool {
    &&& 0 <= i && i + name.len() <= h.len()
    &&& forall|k: int| 0 <= k < name.len() ==> ascii_lower(#[trigger] h[i + k]) == name[k]
}

/// The length of the numeric attribute name that starts at `i`: 7 for
/// `colspan` or `rowspan`, 5 for `start`, 0 for none (ASCII case ignored).
pub open spec fn numeric_name_len(h: Seq<char>, i: int) -> int {
    if name_at(h, i, "colspan"@) || name_at(h, i, "rowspan"@) {
        7
    } else if name_at(h, i, "start"@) {
        5
    } else {
        0
    }
}

/// The characters that may stand between an attribute's name and its
/// value: HTML whitespace, `=` and quotes.
pub open spec fn is_fill(c: char) -> bool {
    c == ' ' || c == '\t' || c == '\n' || c == '\r' || c == '\u{c}' || c == '=' || c == '"' || c == '\''
}

/// The first index at or after `j` that is not a fill character.
pub open spec fn skip_fill(h: Seq<char>, j: int) -> int
    decreases h.len() - j,
{
    if 0 <= j < h.len() && is_fill(h[j]) {
        skip_fill(h, j + 1)
    } else {
        j
    }
}

/// `j`, or the index after a sign at `j`.
pub open spec fn skip_sign(h: Seq<char>, j: int) -> int {
    if 0 <= j < h.len() && (h[j] == '+' || h[j] == '-') {
        j + 1
    } else {
        j
    }
}

/// Whether `c` is an ASCII digit.
pub open spec fn is_digit(c: char) -> bool {
    '0' <= c && c <= '9'
}

/// The first index at or after `j` that is not an ASCII digit.
pub open spec fn digits_end(h: Seq<char>, j: int) -> int
    decreases h.len() - j,
{
    if 0 <= j < h.len() && is_digit(h[j]) {
        digits_end(h, j + 1)
    } else {
        j
    }
}

/// The decimal value of the digits `h[a..b]`.
pub open spec fn digits_value(h: Seq<char>, a: int, b: int) -> nat
    decreases b - a,
{
    if b <= a {
        0
    } else {
        digits_value(h, a, b - 1) * 10 + (h[b - 1] as int - 48) as nat
    }
}

/// Where the number after the attribute name at `i` starts: past fill
/// characters and one sign.
pub open spec fn number_start(h: Seq<char>, i: int) -> int {
    skip_sign(h, skip_fill(h, i + numeric_name_len(h, i)))
}

/// The number read after the attribute name at `i` (0 where none starts).
pub open spec fn number_value(h: Seq<char>, i: int) -> nat {
    if numeric_name_len(h, i) > 0 {
        digits_value(h, number_start(h, i), digits_end(h, number_start(h, i)))
    } else {
        0
    }
}

/// The number after the attribute name at `i` may be large: it has ten or
/// more significant digits, or continues with a character reference.
pub open spec fn number_unsafe(h: Seq<char>, i: int) -> bool {
    &&& numeric_name_len(h, i) > 0
    &&& ({
        let e = digits_end(h, number_start(h, i));
        (0 <= e < h.len() && h[e] == '&') || number_value(h, i) >= 1_000_000_000
    })
}

/// The sum of the numbers read after attribute names starting before `n`.
pub open spec fn numbers_total(h: Seq<char>, n: int) -> nat
    decreases n,
{
    if n <= 0 {
        0
    } else {
        numbers_total(h, n - 1) + number_value(h, n - 1)
    }
}

/// The number of positions before `n` where a numeric attribute name starts.
pub open spec fn numbers_count(h: Seq<char>, n: int) -> nat
    decreases n,
{
    if n <= 0 {
        0
    } else {
        numbers_count(h, n - 1) + if numeric_name_len(h, n - 1) > 0 {
            1nat
        } else {
            0nat
        }
    }
}

/// The table and list numbers of `html` are small: after every `colspan`,
/// `rowspan` or `start` (in any ASCII case, wherever it stands) the number
/// that follows has fewer than ten significant digits and is not continued
/// by a character reference; and with `t` the sum of those numbers, `z` the
/// count of those names and `l` the length of the text,
/// `(z + 1) * (t + l) < 2^31`. html2text adds up colspans and list numbers
/// without overflow checks; every such sum is at most `(z + 1) * (t + l)`
/// (a cell's colspan is its number, or 1, or for `colspan=0` at most the
/// widest row, which is at most `t + l`), so none of them overflows, for a
/// `usize` of 32 or 64 bits.
pub open spec fn spans_bounded(html: Seq<char>) -> bool {
    &&& forall|i: int| 0 <= i < html.len() ==> !#[trigger] number_unsafe(html, i)
    &&& (numbers_count(html, html.len() as int) + 1) * (numbers_total(html, html.len() as int) + html.len())
        < 0x8000_0000
}

fn lower_char(c: char) -> (r: char)
    ensures
        r == ascii_lower(c),
{
    if 'A' <= c && c <= 'Z' {
        ((c as u32) + 32) as u8 as char
    } else {
        c
    }
}

/// Whether `name_at(h, i, name)`.
fn name_at_exec(h: &[char], i: usize, name: &str) -> (b: bool)
    requires
        i <= h@.len(),
    ensures
        b == name_at(h@, i as int, name@),
{
    let n = to_chars(name);
    let hl = h.len();
    if n.len() > hl - i {
        return false;
    }
    let mut k: usize = 0;
    while k < n.len()
        invariant
            hl == h@.len(),
            n@ == name@,
            i + n@.len() <= h@.len(),
            k <= n@.len(),
            forall|q: int| 0 <= q < k ==> ascii_lower(#[trigger] h@[i + q]) == n@[q],
        decreases n.len() - k,
    {
        assert(i + k < h@.len());
        if lower_char(h[i + k]) != n[k] {
            return false;
        }
        k = k + 1;
    }
    true
}

/// The run of digits ends at or after where it starts.
proof fn lemma_digits_end_ge(h: Seq<char>, j: int)
    ensures
        digits_end(h, j) >= j,
    decreases h.len() - j,
{
    if 0 <= j < h.len() && is_digit(h[j]) {
        lemma_digits_end_ge(h, j + 1);
    }
}

/// Longer runs of digits have larger values.
proof fn lemma_digits_value_mono(h: Seq<char>, a: int, j: int, b: int)
    requires
        a <= j <= b,
    ensures
        digits_value(h, a, j) <= digits_value(h, a, b),
    decreases b - j,
{
    if j < b {
        lemma_digits_value_mono(h, a, j, b - 1);
    }
}

/// Totals grow with the number of positions read.
proof fn lemma_numbers_total_mono(h: Seq<char>, j: int, n: int)
    requires
        j <= n,
    ensures
        numbers_total(h, j) <= numbers_total(h, n),
    decreases n - j,
{
    if j < n {
        lemma_numbers_total_mono(h, j, n - 1);
    }
}

/// The number after the attribute name at `i`: `Some(number_value)` when
/// it is safe, `None` when `number_unsafe`.
fn read_number(h: &[char], i: usize) -> (r: Option<u64>)
    requires
        i < h@.len(),
    ensures
        match r {
            Some(v) => !number_unsafe(h@, i as int) && v == number_value(h@, i as int),
            None => number_unsafe(h@, i as int),
        },
{
    let ghost hs = h@;
    let hl = h.len();
    let n: usize = if name_at_exec(h, i, "colspan") || name_at_exec(h, i, "rowspan") {
        7
    } else if name_at_exec(h, i, "start") {
        5
    } else {
        0
    };
    proof {
        reveal_strlit("colspan");
        reveal_strlit("rowspan");
        reveal_strlit("start");
    }
    assert(n == numeric_name_len(hs, i as int));
    if n == 0 {
        return Some(0);
    }
    assert(i + n <= hl);
    let mut j: usize = i + n;
    while j < h.len() && (h[j] == ' ' || h[j] == '\t' || h[j] == '\n' || h[j] == '\r' || h[j] == '\u{c}'
        || h[j] == '=' || h[j] == '"' || h[j] == '\'')
        invariant
            i + n <= j <= hs.len(),
            h@ == hs,
            skip_fill(hs, i + n) == skip_fill(hs, j as int),
        decreases h.len() - j,
    {
        j = j + 1;
    }
    if j < h.len() && (h[j] == '+' || h[j] == '-') {
        j = j + 1;
    }
    let a = j;
    assert(a == number_start(hs, i as int));
    let mut v: u64 = 0;
    while j < h.len() && '0' <= h[j] && h[j] <= '9'
        invariant
            a <= j <= hs.len(),
            h@ == hs,
            i < hs.len(),
            a == number_start(hs, i as int),
            numeric_name_len(hs, i as int) > 0,
            v == digits_value(hs, a as int, j as int),
            v < 1_000_000_000,
            digits_end(hs, a as int) == digits_end(hs, j as int),
        decreases h.len() - j,
    {
        let d = ((h[j] as u32) - 48) as u64;
        v = v * 10 + d;
        j = j + 1;
        assert(v == digits_value(hs, a as int, j as int));
        if v >= 1_000_000_000 {
            proof {
                lemma_digits_end_ge(hs, j as int);
                lemma_digits_value_mono(hs, a as int, j as int, digits_end(hs, a as int));
            }
            return None;
        }
    }
    assert(j == digits_end(hs, a as int));
    if j < h.len() && h[j] == '&' {
        assert(hs[j as int] == '&');
        assert(numeric_name_len(hs, i as int) > 0);
        assert(number_unsafe(hs, i as int));
        return None;
    }
    Some(v)
}

/// Whether `spans_bounded(html)`.
pub fn spans_are_bounded(html: &str) -> (b: bool)
    ensures
        b == spans_bounded(html@),
{
    let h = to_chars(html);
    let len = h.len();
    let ghost hs = h@;
    if len >= 0x8000_0000 {
        proof {
            assert((numbers_count(hs, len as int) + 1) * (numbers_total(hs, len as int) + len) >= 0x8000_0000)
                by (nonlinear_arith)
                requires
                    len >= 0x8000_0000,
            ;
        }
        return false;
    }
    let mut total: u64 = 0;
    let mut count: u64 = 0;
    let mut i: usize = 0;
    while i < len
        invariant
            h@ == html@,
            hs == h@,
            len == h@.len(),
            len < 0x8000_0000,
            i <= len,
            total == numbers_total(hs, i as int),
            count == numbers_count(hs, i as int),
            count <= i,
            total + len < 0x8000_0000,
            forall|k: int| 0 <= k < i ==> !#[trigger] number_unsafe(hs, k),
        decreases len - i,
    {
        match read_number(h.as_slice(), i) {
            None => {
                return false;
            },
            Some(v) => {
                if total + v + (len as u64) >= 0x8000_0000 {
                    proof {
                        lemma_numbers_total_mono(hs, i + 1, len as int);
                        let t = numbers_total(hs, len as int);
                        let z = numbers_count(hs, len as int);
                        assert((z + 1) * (t + len) >= 0x8000_0000) by (nonlinear_arith)
                            requires
                                t + len >= 0x8000_0000,
                        ;
                    }
                    return false;
                }
                total = total + v;
            },
        }
        if name_at_exec(h.as_slice(), i, "colspan") || name_at_exec(h.as_slice(), i, "rowspan")
            || name_at_exec(h.as_slice(), i, "start") {
            proof {
                reveal_strlit("colspan");
                reveal_strlit("rowspan");
                reveal_strlit("start");
            }
            assert(numeric_name_len(hs, i as int) > 0);
            count = count + 1;
        } else {
            assert(numeric_name_len(hs, i as int) == 0);
        }
        i = i + 1;
    }
    assert(count < 0x8000_0000 && total + len < 0x8000_0000);
    proof {
        assert((count + 1) * (total + len) <= 0x4000_0000_0000_0000) by (nonlinear_arith)
            requires
                count < 0x8000_0000,
                total + len < 0x8000_0000,
        ;
    }
    let product = (count + 1) * (total + len as u64);
    product < 0x8000_0000
}

// ── HTML to text ─────────────────────────────────────────────────────────────

/// What html2text's plain renderer makes of `html` at `width` columns: the
/// text, or the rendering error's message. A function of its arguments.
pub uninterp spec fn rendered_text(html: Seq<char>, width: nat) -> Result<Seq<char>, Seq<char>>;

/// Calls `html2text::config::with_decorator(PlainDecorator::new())
/// .string_from_read(html.as_bytes(), width)`, which parses the HTML and
/// renders it as plain text wrapped to `width` columns; an error is turned
/// into its message.
///
/// The call is made only on text whose table and list numbers are small
/// (`spans_bounded`): html2text adds up `colspan` values (`RenderTable::new`,
/// the table-body builder) and `<ol start>` numbers (`calc_ol_prefix_size`)
/// without overflow checks, and the bound keeps every such sum in range.
/// The width unwrap in `flush_word_hard_wrap` (`render/text_renderer.rs`)
/// is not reached by any character without a width: characters enter a
/// word only through `WrappedBlock::add_text`, which adds a character only
/// after `UnicodeWidthChar::width` returned a width for it, and
/// `add_element` adds only fragment markers. Document CSS, which could
/// generate text, is not compiled in.
#[verifier::external_body]
fn render_html(html: &str, width: usize) -> (r: Result<String, String>)
    requires
        spans_bounded(html@),
        width == RENDER_WIDTH,
    ensures
        match r {
            Ok(t) => rendered_text(html@, width as nat) == Ok::<Seq<char>, Seq<char>>(t@),
            Err(e) => rendered_text(html@, width as nat) == Err::<Seq<char>, Seq<char>>(e@),
        },
{
    match html2text::config::with_decorator(html2text::render::PlainDecorator::new())
        .string_from_read(html.as_bytes(), width) {
        Ok(t) => Ok(t),
        Err(e) => Err(e.to_string()),
    }
}

/// The error for a page whose table or list numbers are too large to lay
/// out safely.
pub open spec fn oversized_numbers_message() -> Seq<char> {
    "DOM parsing failed: colspan, rowspan or list start values are too large"@
}

/// Strips and compresses HTML: renders it as text, collapses whitespace and
/// truncates to the character budget; returns the text and its length in
/// bytes. A page whose table or list numbers could overflow the layout
/// (`spans_bounded` fails) is refused with an error.
pub fn compress_html(raw_html: &str) -> (r: Result<(String, usize), String>)
    ensures
        r matches Ok((o, n)) ==> o@.len() <= MAX_OUTPUT_CHARS + 47,
        !spans_bounded(raw_html@) ==> (r matches Err(m) && m@ == oversized_numbers_message()),
        spans_bounded(raw_html@) ==> match rendered_text(raw_html@, RENDER_WIDTH as nat) {
            Err(e) => r matches Err(m) && m@ == "DOM parsing failed: "@ + e,
            Ok(text) => r matches Ok((o, n)) && o@ == truncated_output(collapsed(text)) && n == utf8_len(o@),
        },
{
    if !spans_are_bounded(raw_html) {
        return Err(from_chars(to_chars("DOM parsing failed: colspan, rowspan or list start values are too large").as_slice()));
    }
    match render_html(raw_html, RENDER_WIDTH) {
        Err(e) => {
            let mut m = to_chars("DOM parsing failed: ");
            push_str(&mut m, e.as_str());
            Err(from_chars(m.as_slice()))
        },
        Ok(text) => {
            let compressed = collapse_whitespace(text.as_str());
            let chars = to_chars(compressed.as_str());
            let (v, n) = truncate_output(chars.as_slice());
            Ok((from_chars(v.as_slice()), n))
        },
    }
}

// ── Fetch decisions ──────────────────────────────────────────────────────────

/// The largest page body accepted (10 MiB).
pub const MAX_RAW_PAYLOAD_BYTES: u64 = 10 * 1024 * 1024;

/// The text of an optional reason phrase, `Unknown` when absent.
pub open spec fn reason_text(reason: Option<Seq<char>>) -> Seq<char> {
    match reason {
        Some(t) => t,
        None => "Unknown"@,
    }
}

/// Accepts a 2xx HTTP status; any other is rejected with its code and
/// reason phrase.
pub fn check_status(code: u16, reason: Option<&str>) -> (r: Result<(), String>)
    ensures
        200 <= code <= 299 ==> r is Ok,
        !(200 <= code <= 299) ==> (r matches Err(m) && m@ == "HTTP "@ + decimal(code as nat)
            + " — server rejected request: "@ + reason_text(
            match reason {
                Some(t) => Some(t@),
                None => None,
            },
        )),
{
    if 200 <= code && code <= 299 {
        return Ok(());
    }
    let mut m = to_chars("HTTP ");
    push_decimal(&mut m, code as u64);
    push_str(&mut m, " — server rejected request: ");
    match reason {
        Some(t) => push_str(&mut m, t),
        None => push_str(&mut m, "Unknown"),
    }
    Err(from_chars(m.as_slice()))
}

/// Rejects a declared content length above `MAX_RAW_PAYLOAD_BYTES`.
pub fn check_content_length(content_length: Option<u64>) -> (r: Result<(), String>)
    ensures
        match content_length {
            Some(n) if n > MAX_RAW_PAYLOAD_BYTES => r matches Err(m) && m@ == "Payload too large: "@
                + decimal(n as nat) + " bytes (limit: "@ + decimal(MAX_RAW_PAYLOAD_BYTES as nat) + " bytes)"@,
            _ => r is Ok,
        },
{
    match content_length {
        Some(n) => {
            if n > MAX_RAW_PAYLOAD_BYTES {
                let mut m = to_chars("Payload too large: ");
                push_decimal(&mut m, n);
                push_str(&mut m, " bytes (limit: ");
                push_decimal(&mut m, MAX_RAW_PAYLOAD_BYTES);
                push_str(&mut m, " bytes)");
                Err(from_chars(m.as_slice()))
            } else {
                Ok(())
            }
        },
        None => Ok(()),
    }
}

/// Rejects a downloaded body of more than `MAX_RAW_PAYLOAD_BYTES` bytes.
pub fn check_body_size(body_len: usize) -> (r: Result<(), String>)
    ensures
        body_len > MAX_RAW_PAYLOAD_BYTES ==> (r matches Err(m) && m@ == "Downloaded payload too large: "@
            + decimal(body_len as nat) + " bytes (limit: "@ + decimal(MAX_RAW_PAYLOAD_BYTES as nat)
            + " bytes)"@),
        body_len <= MAX_RAW_PAYLOAD_BYTES ==> r is Ok,
{
    if body_len as u64 > MAX_RAW_PAYLOAD_BYTES {
        let mut m = to_chars("Downloaded payload too large: ");
        push_decimal(&mut m, body_len as u64);
        push_str(&mut m, " bytes (limit: ");
        push_decimal(&mut m, MAX_RAW_PAYLOAD_BYTES);
        push_str(&mut m, " bytes)");
        Err(from_chars(m.as_slice()))
    } else {
        Ok(())
    }
}

/// The report that heads a compressed page: source, sizes and reduction.
pub open spec fn ingest_report_text(url: Seq<char>, raw_size: nat, compressed_size: nat, ratio: nat, text: Seq<char>) -> Seq<char> {
    "[mHTTP] Source: "@ + url + "\n[mHTTP] Raw HTML: "@ + decimal(raw_size) + " bytes → Compressed: "@
        + decimal(compressed_size) + " bytes ("@ + decimal(ratio) + "% reduction)\n"@
        + "[mHTTP] ─────────────────────────────────────────────────────────\n\n"@ + text
}

/// Prepends the compression report to the compressed text.
pub fn ingest_report(url: &str, raw_size: usize, compressed_size: usize, ratio: u32, text: &str) -> (r: String)
    ensures
        r@ == ingest_report_text(url@, raw_size as nat, compressed_size as nat, ratio as nat, text@),
{
    let mut m = to_chars("[mHTTP] Source: ");
    push_str(&mut m, url);
    push_str(&mut m, "\n[mHTTP] Raw HTML: ");
    push_decimal(&mut m, raw_size as u64);
    push_str(&mut m, " bytes → Compressed: ");
    push_decimal(&mut m, compressed_size as u64);
    push_str(&mut m, " bytes (");
    push_decimal(&mut m, ratio as u64);
    push_str(&mut m, "% reduction)\n");
    push_str(&mut m, "[mHTTP] ─────────────────────────────────────────────────────────\n\n");
    push_str(&mut m, text);
    from_chars(m.as_slice())
}

} // verus!
