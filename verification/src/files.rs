//! A set of project files keyed by path, kept in path order.

use vstd::prelude::*;

use crate::text::to_chars;

verus! {

/// Strict lexicographic order on character sequences, by code point with a
/// proper prefix first: the order of `String`'s `Ord` (UTF-8 preserves it).
pub open spec fn lex_lt(a: Seq<char>, b: Seq<char>) -> bool
    decreases a.len(),
{
    if b.len() == 0 {
        false
    } else if a.len() == 0 {
        true
    } else if a[0] < b[0] {
        true
    } else if a[0] == b[0] {
        lex_lt(a.drop_first(), b.drop_first())
    } else {
        false
    }
}

/// `lex_lt` is irreflexive.
pub proof fn lemma_lex_irrefl(a: Seq<char>)
    ensures
        !lex_lt(a, a),
    decreases a.len(),
{
    if a.len() > 0 {
        lemma_lex_irrefl(a.drop_first());
    }
}

/// `lex_lt` is transitive.
pub proof fn lemma_lex_trans(a: Seq<char>, b: Seq<char>, c: Seq<char>)
    requires
        lex_lt(a, b),
        lex_lt(b, c),
    ensures
        lex_lt(a, c),
    decreases a.len(),
{
    if a.len() > 0 && b.len() > 0 && c.len() > 0 && a[0] == b[0] && b[0] == c[0] {
        lemma_lex_trans(a.drop_first(), b.drop_first(), c.drop_first());
    }
}

/// `lex_lt` is total on distinct sequences.
pub proof fn lemma_lex_total(a: Seq<char>, b: Seq<char>)
    ensures
        a == b || lex_lt(a, b) || lex_lt(b, a),
    decreases a.len(),
{
    if a.len() > 0 && b.len() > 0 && a[0] == b[0] {
        lemma_lex_total(a.drop_first(), b.drop_first());
        if a.drop_first() == b.drop_first() {
            assert(a == seq![a[0]] + a.drop_first());
            assert(b == seq![b[0]] + b.drop_first());
        }
    } else if a.len() == 0 && b.len() == 0 {
        assert(a == b);
    }
}

/// `lex_lt` is asymmetric.
pub proof fn lemma_lex_asym(a: Seq<char>, b: Seq<char>)
    requires
        lex_lt(a, b),
    ensures
        !lex_lt(b, a),
{
    if lex_lt(b, a) {
        lemma_lex_trans(a, b, a);
        lemma_lex_irrefl(a);
    }
}

/// `lex_lt(a, b)`.
pub fn lex_less(a: &[char], b: &[char]) -> (r: bool)
    ensures
        r == lex_lt(a@, b@),
{
    let mut i: usize = 0;
    assert(a@.skip(0) == a@ && b@.skip(0) == b@);
    while i < a.len() && i < b.len() && a[i] == b[i]
        invariant
            i <= a@.len(),
            i <= b@.len(),
            lex_lt(a@, b@) == lex_lt(a@.skip(i as int), b@.skip(i as int)),
        decreases a.len() - i,
    {
        assert(a@.skip(i as int).drop_first() == a@.skip(i + 1));
        assert(b@.skip(i as int).drop_first() == b@.skip(i + 1));
        i = i + 1;
    }
    if i == b.len() {
        false
    } else if i == a.len() {
        true
    } else {
        a[i] < b[i]
    }
}

/// The entries of a file set, as (path, content) pairs.
pub type Entries = Seq<(Seq<char>, Seq<char>)>;

/// Paths strictly increase along the entries (so no path occurs twice).
pub open spec fn sorted_paths(es: Entries) -> bool {
    forall|i: int, j: int| 0 <= i < j < es.len() ==> lex_lt(#[trigger] es[i].0, #[trigger] es[j].0)
}

/// `es` with `(path, content)` put in its place by path, replacing an entry
/// with the same path.
pub open spec fn insert_entry(es: Entries, path: Seq<char>, content: Seq<char>) -> Entries
    decreases es.len(),
{
    if es.len() == 0 {
        seq![(path, content)]
    } else if es[0].0 == path {
        seq![(path, content)] + es.drop_first()
    } else if lex_lt(path, es[0].0) {
        seq![(path, content)] + es
    } else {
        seq![es[0]] + insert_entry(es.drop_first(), path, content)
    }
}

/// The content stored under `path`, if any.
pub open spec fn lookup(es: Entries, path: Seq<char>) -> Option<Seq<char>>
    decreases es.len(),
{
    if es.len() == 0 {
        None
    } else if es[0].0 == path {
        Some(es[0].1)
    } else {
        lookup(es.drop_first(), path)
    }
}

/// Where `insert_entry` places a path: after the `p` entries with smaller
/// paths, replacing the entry at `p` when it has the same path.
proof fn lemma_insert_entry_split(es: Entries, path: Seq<char>, content: Seq<char>, p: int)
    requires
        sorted_paths(es),
        0 <= p <= es.len(),
        forall|i: int| 0 <= i < p ==> lex_lt(#[trigger] es[i].0, path),
        p < es.len() ==> !lex_lt(es[p].0, path),
    ensures
        p < es.len() && es[p].0 == path ==> insert_entry(es, path, content) == es.take(p) + seq![(path, content)] + es.skip(p + 1),
        !(p < es.len() && es[p].0 == path) ==> insert_entry(es, path, content) == es.take(p) + seq![(path, content)] + es.skip(p),
    decreases p,
{
    if p == 0 {
        assert(es.take(0) + seq![(path, content)] + es.skip(0) == seq![(path, content)] + es);
        if es.len() > 0 {
            assert(es.take(0) + seq![(path, content)] + es.skip(1) == seq![(path, content)] + es.drop_first());
            if es[0].0 != path {
                lemma_lex_total(es[0].0, path);
            }
        }
    } else {
        let rest = es.drop_first();
        assert(sorted_paths(rest)) by {
            assert forall|i: int, j: int| 0 <= i < j < rest.len() implies lex_lt(#[trigger] rest[i].0, #[trigger] rest[j].0) by {
                assert(rest[i] == es[i + 1] && rest[j] == es[j + 1]);
            }
        }
        assert forall|i: int| 0 <= i < p - 1 implies lex_lt(#[trigger] rest[i].0, path) by {
            assert(rest[i] == es[i + 1]);
        }
        lemma_insert_entry_split(rest, path, content, p - 1);
        assert(lex_lt(es[0].0, path));
        lemma_lex_asym(es[0].0, path);
        lemma_lex_irrefl(path);
        assert(es[0].0 != path);
        assert(es.take(p) == seq![es[0]] + rest.take(p - 1));
        assert(es.skip(p) == rest.skip(p - 1));
        if p < es.len() {
            assert(es.skip(p + 1) == rest.skip(p));
        }
    }
}

/// A set of project files keyed by path, kept in path order.
pub struct FileMap {
    entries: Vec<(String, String)>,
}

impl View for FileMap {
    type V = Entries;

    closed spec fn view(&self) -> Entries {
        self.entries@.map_values(|e: (String, String)| (e.0@, e.1@))
    }
}

impl FileMap {
    #[verifier::type_invariant]
    spec fn inv(self) -> bool {
        sorted_paths(self@)
    }

    /// An empty file set.
    pub fn new() -> (r: FileMap)
        ensures
            r@ == Seq::<(Seq<char>, Seq<char>)>::empty(),
    {
        let r = FileMap { entries: Vec::new() };
        assert(r@ =~= Seq::<(Seq<char>, Seq<char>)>::empty());
        r
    }

    /// The entries are in strictly increasing path order.
    pub fn check_sorted(&self)
        ensures
            sorted_paths(self@),
    {
        proof {
            use_type_invariant(self);
        }
    }

    /// A copy of this file set.
    pub fn copy(&self) -> (r: FileMap)
        ensures
            r@ == self@,
    {
        proof {
            use_type_invariant(self);
        }
        let mut entries: Vec<(String, String)> = Vec::new();
        let mut i: usize = 0;
        while i < self.entries.len()
            invariant
                i <= self.entries@.len(),
                entries@.len() == i,
                forall|j: int| 0 <= j < i ==> (#[trigger] entries@[j]).0@ == self.entries@[j].0@
                    && entries@[j].1@ == self.entries@[j].1@,
            decreases self.entries.len() - i,
        {
            let e = &self.entries[i];
            entries.push((e.0.clone(), e.1.clone()));
            i = i + 1;
        }
        let ghost v = entries@.map_values(|e: (String, String)| (e.0@, e.1@));
        assert(v =~= self@);
        FileMap { entries }
    }

    /// The number of files.
    pub fn len(&self) -> (n: usize)
        ensures
            n == self@.len(),
    {
        self.entries.len()
    }

    /// Whether there are no files.
    pub fn is_empty(&self) -> (b: bool)
        ensures
            b == (self@.len() == 0),
    {
        self.entries.len() == 0
    }

    /// The path and content of the `i`-th file in path order.
    pub fn entry(&self, i: usize) -> (r: (&String, &String))
        requires
            i < self@.len(),
        ensures
            r.0@ == self@[i as int].0,
            r.1@ == self@[i as int].1,
    {
        let e = &self.entries[i];
        (&e.0, &e.1)
    }

    /// The paths in path order.
    pub fn paths(&self) -> (r: Vec<String>)
        ensures
            r@.len() == self@.len(),
            forall|i: int| 0 <= i < r@.len() ==> #[trigger] r@[i]@ == self@[i].0,
    {
        let mut r: Vec<String> = Vec::new();
        let mut i: usize = 0;
        while i < self.entries.len()
            invariant
                i <= self@.len(),
                self@.len() == self.entries@.len(),
                r@.len() == i,
                forall|j: int| 0 <= j < i ==> #[trigger] r@[j]@ == self@[j].0,
            decreases self.entries.len() - i,
        {
            r.push(self.entries[i].0.clone());
            i = i + 1;
        }
        r
    }

    /// Stores `content` under `path`, replacing what was stored there.
    pub fn insert(&mut self, path: String, content: String)
        ensures
            final(self)@ == insert_entry(old(self)@, path@, content@),
    {
        proof {
            use_type_invariant(&*self);
        }
        let key = to_chars(path.as_str());
        let mut p: usize = 0;
        while p < self.entries.len() && lex_less(to_chars(self.entries[p].0.as_str()).as_slice(), key.as_slice())
            invariant
                p <= self@.len(),
                self@.len() == self.entries@.len(),
                key@ == path@,
                sorted_paths(self@),
                forall|i: int| 0 <= i < p ==> lex_lt(#[trigger] self@[i].0, path@),
            decreases self.entries.len() - p,
        {
            p = p + 1;
        }
        let ghost old_view = self@;
        proof {
            lemma_insert_entry_split(old_view, path@, content@, p as int);
        }
        let same = p < self.entries.len() && self.entries[p].0 == path;
        let mut entries = Vec::new();
        std::mem::swap(&mut entries, &mut self.entries);
        if same {
            entries.remove(p);
        }
        entries.insert(p, (path, content));
        let ghost nv = entries@.map_values(|e: (String, String)| (e.0@, e.1@));
        proof {
            if same {
                assert(nv =~= old_view.take(p as int) + seq![(path@, content@)] + old_view.skip(p + 1));
            } else {
                assert(nv =~= old_view.take(p as int) + seq![(path@, content@)] + old_view.skip(p as int));
            }
            lemma_insert_entry_sorted(old_view, path@, content@);
        }
        self.entries = entries;
    }
}

/// Inserting keeps the paths sorted.
pub proof fn lemma_insert_entry_sorted(es: Entries, path: Seq<char>, content: Seq<char>)
    requires
        sorted_paths(es),
    ensures
        sorted_paths(insert_entry(es, path, content)),
        forall|i: int| 0 <= i < insert_entry(es, path, content).len() ==> (#[trigger] insert_entry(es, path, content)[i].0 == path
            || exists|j: int| 0 <= j < es.len() && es[j].0 == insert_entry(es, path, content)[i].0),
    decreases es.len(),
{
    let r = insert_entry(es, path, content);
    if es.len() == 0 {
    } else if es[0].0 == path {
        assert forall|i: int, j: int| 0 <= i < j < r.len() implies lex_lt(#[trigger] r[i].0, #[trigger] r[j].0) by {
            assert(r[i].0 == es[i].0 && r[j].0 == es[j].0);
        }
        assert forall|i: int| 0 <= i < r.len() implies (#[trigger] r[i].0 == path
            || exists|j: int| 0 <= j < es.len() && es[j].0 == r[i].0) by {
            if i > 0 {
                assert(r[i] == es[i]);
            }
        }
    } else if lex_lt(path, es[0].0) {
        assert forall|i: int, j: int| 0 <= i < j < r.len() implies lex_lt(#[trigger] r[i].0, #[trigger] r[j].0) by {
            if i == 0 {
                if j > 1 {
                    lemma_lex_trans(path, es[0].0, es[j - 1].0);
                }
            } else {
                assert(r[i] == es[i - 1] && r[j] == es[j - 1]);
            }
        }
        assert forall|i: int| 0 <= i < r.len() implies (#[trigger] r[i].0 == path
            || exists|j: int| 0 <= j < es.len() && es[j].0 == r[i].0) by {
            if i > 0 {
                assert(r[i] == es[i - 1]);
            }
        }
    } else {
        let rest = es.drop_first();
        assert(sorted_paths(rest)) by {
            assert forall|i: int, j: int| 0 <= i < j < rest.len() implies lex_lt(#[trigger] rest[i].0, #[trigger] rest[j].0) by {
                assert(rest[i] == es[i + 1] && rest[j] == es[j + 1]);
            }
        }
        lemma_insert_entry_sorted(rest, path, content);
        let rr = insert_entry(rest, path, content);
        assert(r == seq![es[0]] + rr);
        lemma_lex_total(path, es[0].0);
        assert forall|i: int, j: int| 0 <= i < j < r.len() implies lex_lt(#[trigger] r[i].0, #[trigger] r[j].0) by {
            if i == 0 {
                assert(r[j] == rr[j - 1]);
                if rr[j - 1].0 == path {
                } else {
                    let k = choose|k: int| 0 <= k < rest.len() && rest[k].0 == rr[j - 1].0;
                    assert(rest[k] == es[k + 1]);
                }
            } else {
                assert(r[i] == rr[i - 1] && r[j] == rr[j - 1]);
            }
        }
        assert forall|i: int| 0 <= i < r.len() implies (#[trigger] r[i].0 == path
            || exists|j: int| 0 <= j < es.len() && es[j].0 == r[i].0) by {
            if i > 0 {
                assert(r[i] == rr[i - 1]);
                if rr[i - 1].0 != path {
                    let k = choose|k: int| 0 <= k < rest.len() && rest[k].0 == rr[i - 1].0;
                    assert(rest[k] == es[k + 1]);
                    assert(es[k + 1].0 == r[i].0);
                }
            }
        }
    }
}

/// Reading back a stored path gives the stored content; every other path
/// reads as before.
pub proof fn law_insert_lookup(es: Entries, path: Seq<char>, content: Seq<char>, other: Seq<char>)
    requires
        sorted_paths(es),
    ensures
        lookup(insert_entry(es, path, content), path) == Some(content),
        other != path ==> lookup(insert_entry(es, path, content), other) == lookup(es, other),
    decreases es.len(),
{
    if es.len() > 0 && es[0].0 != path && !lex_lt(path, es[0].0) {
        let rest = es.drop_first();
        assert(sorted_paths(rest)) by {
            assert forall|i: int, j: int| 0 <= i < j < rest.len() implies lex_lt(#[trigger] rest[i].0, #[trigger] rest[j].0) by {
                assert(rest[i] == es[i + 1] && rest[j] == es[j + 1]);
            }
        }
        law_insert_lookup(rest, path, content, other);
        let r = insert_entry(es, path, content);
        assert(r.drop_first() == insert_entry(rest, path, content));
    } else if es.len() > 0 && es[0].0 == path {
        let r = insert_entry(es, path, content);
        assert(r.drop_first() == es.drop_first());
    } else if es.len() > 0 {
        let r = insert_entry(es, path, content);
        assert(r.drop_first() == es);
    } else {
        let r = insert_entry(es, path, content);
        assert(r.drop_first() == es);
    }
}

/// In sorted entries, the content stored under the path of entry `i` is that
/// entry's content.
pub proof fn lemma_lookup_at(es: Entries, i: int)
    requires
        sorted_paths(es),
        0 <= i < es.len(),
    ensures
        lookup(es, es[i].0) == Some(es[i].1),
    decreases i,
{
    if i > 0 {
        let rest = es.drop_first();
        assert(sorted_paths(rest)) by {
            assert forall|a: int, b: int| 0 <= a < b < rest.len() implies lex_lt(#[trigger] rest[a].0, #[trigger] rest[b].0) by {
                assert(rest[a] == es[a + 1] && rest[b] == es[b + 1]);
            }
        }
        assert(lex_lt(es[0].0, es[i].0));
        lemma_lex_irrefl(es[0].0);
        lemma_lookup_at(rest, i - 1);
        assert(rest[i - 1] == es[i]);
    }
}

/// A path that no entry has reads as absent.
pub proof fn lemma_lookup_absent(es: Entries, path: Seq<char>)
    requires
        forall|i: int| 0 <= i < es.len() ==> (#[trigger] es[i]).0 != path,
    ensures
        lookup(es, path) is None,
    decreases es.len(),
{
    if es.len() > 0 {
        let rest = es.drop_first();
        assert forall|i: int| 0 <= i < rest.len() implies (#[trigger] rest[i]).0 != path by {
            assert(rest[i] == es[i + 1]);
        }
        lemma_lookup_absent(rest, path);
    }
}

/// No entry of sorted entries after the first has the first entry's path.
proof fn lemma_first_path_unique(es: Entries)
    requires
        sorted_paths(es),
        es.len() > 0,
    ensures
        forall|i: int| 0 <= i < es.drop_first().len() ==> (#[trigger] es.drop_first()[i]).0 != es[0].0,
        sorted_paths(es.drop_first()),
{
    let rest = es.drop_first();
    assert forall|i: int| 0 <= i < rest.len() implies (#[trigger] rest[i]).0 != es[0].0 by {
        assert(rest[i] == es[i + 1]);
        assert(lex_lt(es[0].0, es[i + 1].0));
        lemma_lex_irrefl(es[0].0);
    }
    assert forall|i: int, j: int| 0 <= i < j < rest.len() implies lex_lt(#[trigger] rest[i].0, #[trigger] rest[j].0) by {
        assert(rest[i] == es[i + 1] && rest[j] == es[j + 1]);
    }
}

/// A path below every path of sorted entries is not among them.
proof fn lemma_below_first_absent(es: Entries, p: Seq<char>)
    requires
        sorted_paths(es),
        es.len() > 0,
        lex_lt(p, es[0].0),
    ensures
        lookup(es, p) is None,
{
    assert forall|i: int| 0 <= i < es.len() implies (#[trigger] es[i]).0 != p by {
        if i > 0 {
            assert(lex_lt(es[0].0, es[i].0));
            if es[i].0 == p {
                lemma_lex_asym(p, es[0].0);
            }
        } else {
            lemma_lex_irrefl(p);
        }
    }
    lemma_lookup_absent(es, p);
}

/// A file set is determined by what it stores under each path: two sorted
/// entry sequences that store the same content under every path are equal,
/// so the order in which files were inserted never shows.
pub proof fn law_entries_determined(a: Entries, b: Entries)
    requires
        sorted_paths(a),
        sorted_paths(b),
        forall|p: Seq<char>| #[trigger] lookup(a, p) == lookup(b, p),
    ensures
        a == b,
    decreases a.len() + b.len(),
{
    if a.len() == 0 || b.len() == 0 {
        if a.len() > 0 {
            lemma_lookup_at(a, 0);
            assert(lookup(b, a[0].0) is None);
        } else if b.len() > 0 {
            lemma_lookup_at(b, 0);
            assert(lookup(a, b[0].0) is None);
        }
        assert(a =~= b);
    } else {
        let x = a[0].0;
        let y = b[0].0;
        lemma_lookup_at(a, 0);
        lemma_lookup_at(b, 0);
        if x != y {
            lemma_lex_total(x, y);
            if lex_lt(x, y) {
                lemma_below_first_absent(b, x);
                assert(lookup(a, x) == lookup(b, x));
            } else {
                lemma_below_first_absent(a, y);
                assert(lookup(a, y) == lookup(b, y));
            }
        }
        assert(lookup(a, x) == lookup(b, x));
        assert(a[0] == b[0]);
        let ra = a.drop_first();
        let rb = b.drop_first();
        lemma_first_path_unique(a);
        lemma_first_path_unique(b);
        assert forall|p: Seq<char>| #[trigger] lookup(ra, p) == lookup(rb, p) by {
            if p == x {
                lemma_lookup_absent(ra, p);
                lemma_lookup_absent(rb, p);
            } else {
                assert(lookup(a, p) == lookup(ra, p));
                assert(lookup(b, p) == lookup(rb, p));
                assert(lookup(a, p) == lookup(b, p));
            }
        }
        law_entries_determined(ra, rb);
        assert(a =~= seq![a[0]] + ra);
        assert(b =~= seq![b[0]] + rb);
    }
}

} // verus!
