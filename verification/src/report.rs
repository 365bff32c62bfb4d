//! A system report as Windows' Settings > About page copies it: one
//! `name<TAB>value` entry per line. Lines without a tab are skipped, and
//! where a name occurs on several lines the last one counts.

use vstd::prelude::*;
use crate::text::{chars_equal, chars_of, string_from_chars};

verus! {

/// A line without the `\r` of a `\r\n` line ending.
pub open spec fn strip_cr(line: Seq<char>) -> Seq<char> {
    if line.len() > 0 && line.last() == '\r' {
        line.drop_last()
    } else {
        line
    }
}

/// Reading `s` from the start: the lines ended so far, and the unfinished
/// last line. A line ends at `\n`; a `\r` just before that `\n` belongs to
/// the line ending.
pub open spec fn line_scan(s: Seq<char>) -> (Seq<Seq<char>>, Seq<char>)
    decreases s.len(),
{
    if s.len() == 0 {
        (seq![], seq![])
    } else {
        let prev = line_scan(s.drop_last());
        if s.last() == '\n' {
            (prev.0.push(strip_cr(prev.1)), seq![])
        } else {
            (prev.0, prev.1.push(s.last()))
        }
    }
}

/// The lines of `s` as `str::lines` yields them: split at `\n` or `\r\n`,
/// where a final line ending adds no empty line.
pub open spec fn lines(s: Seq<char>) -> Seq<Seq<char>> {
    if line_scan(s).1.len() > 0 {
        line_scan(s).0.push(line_scan(s).1)
    } else {
        line_scan(s).0
    }
}

/// `i` is the position of the first `c` in `s`.
pub open spec fn is_first_index(s: Seq<char>, c: char, i: int) -> bool {
    &&& 0 <= i < s.len()
    &&& s[i] == c
    &&& forall|j: int| 0 <= j < i ==> s[j] != c
}

/// `split_once('\t')`: the text before the first tab and the text after it.
pub open spec fn split_at_tab(line: Seq<char>) -> Option<(Seq<char>, Seq<char>)> {
    if exists|i: int| is_first_index(line, '\t', i) {
        let i = choose|i: int| is_first_index(line, '\t', i);
        Some((line.take(i), line.skip(i + 1)))
    } else {
        None
    }
}

/// The `(name, value)` entries of the lines that hold a tab, in order.
pub open spec fn entries_of(lines: Seq<Seq<char>>) -> Seq<(Seq<char>, Seq<char>)>
    decreases lines.len(),
{
    if lines.len() == 0 {
        seq![]
    } else {
        let rest = entries_of(lines.drop_last());
        match split_at_tab(lines.last()) {
            Some(e) => rest.push(e),
            None => rest,
        }
    }
}

/// The entries of a report text.
pub open spec fn report_entries(text: Seq<char>) -> Seq<(Seq<char>, Seq<char>)> {
    entries_of(lines(text))
}

/// The value of the last entry named `key`.
pub open spec fn lookup(entries: Seq<(Seq<char>, Seq<char>)>, key: Seq<char>) -> Option<Seq<char>>
    decreases entries.len(),
{
    if entries.len() == 0 {
        None
    } else if entries.last().0 == key {
        Some(entries.last().1)
    } else {
        lookup(entries.drop_last(), key)
    }
}

/// The value that a report text gives for `key`.
pub open spec fn report_value(text: Seq<char>, key: Seq<char>) -> Option<Seq<char>> {
    lookup(report_entries(text), key)
}

/// The parsed entries of a system report.
pub struct SystemReport {
    entries: Vec<(Vec<char>, Vec<char>)>,
}

/// The entries as character sequences.
pub open spec fn entries_view(v: Seq<(Vec<char>, Vec<char>)>) -> Seq<(Seq<char>, Seq<char>)> {
    v.map_values(|e: (Vec<char>, Vec<char>)| (e.0@, e.1@))
}

impl View for SystemReport {
    type V = Seq<(Seq<char>, Seq<char>)>;

    closed spec fn view(&self) -> Seq<(Seq<char>, Seq<char>)> {
        entries_view(self.entries@)
    }
}

fn first_tab(line: &[char]) -> (r: Option<usize>)
    ensures
        r matches Some(i) ==> is_first_index(line@, '\t', i as int),
        r is None ==> forall|i: int| !is_first_index(line@, '\t', i),
{
    let n = line.len();
    for i in 0..n
        invariant
            n == line@.len(),
            forall|j: int| 0 <= j < i ==> line@[j] != '\t',
    {
        if line[i] == '\t' {
            return Some(i);
        }
    }
    None
}

fn copy_range(v: &[char], from: usize, to: usize) -> (r: Vec<char>)
    requires
        from <= to <= v@.len(),
    ensures
        r@ == v@.subrange(from as int, to as int),
{
    let mut r: Vec<char> = Vec::new();
    for i in from..to
        invariant
            to <= v@.len(),
            r@ == v@.subrange(from as int, i as int),
    {
        r.push(v[i]);
        assert(v@.subrange(from as int, i + 1) == v@.subrange(from as int, i as int).push(v@[i as int]));
    }
    r
}

fn split_entry(line: &[char]) -> (r: Option<(Vec<char>, Vec<char>)>)
    ensures
        r is Some <==> split_at_tab(line@) is Some,
        r matches Some(e) ==> split_at_tab(line@) == Some((e.0@, e.1@)),
{
    let n = line.len();
    match first_tab(line) {
        Some(i) => {
            assert(i < n);
            let key = copy_range(line, 0, i);
            let value = copy_range(line, i + 1, n);
            proof {
                let j = choose|j: int| is_first_index(line@, '\t', j);
                assert(j == i);
                assert(key@ == line@.take(i as int));
                assert(value@ == line@.skip(i + 1));
            }
            Some((key, value))
        },
        None => None,
    }
}

fn push_entry(entries: &mut Vec<(Vec<char>, Vec<char>)>, line: &[char])
    ensures
        entries_view(final(entries)@) == match split_at_tab(line@) {
            Some(e) => entries_view(old(entries)@).push(e),
            None => entries_view(old(entries)@),
        },
{
    match split_entry(line) {
        Some(e) => {
            entries.push(e);
            assert(entries_view(entries@) =~= match split_at_tab(line@) {
                Some(e) => entries_view(old(entries)@).push(e),
                None => entries_view(old(entries)@),
            });
        },
        None => {},
    }
}

fn strip_cr_exec(line: &Vec<char>) -> (r: Vec<char>)
    ensures
        r@ == strip_cr(line@),
{
    let n = line.len();
    if n > 0 && line[n - 1] == '\r' {
        copy_range(line.as_slice(), 0, n - 1)
    } else {
        copy_range(line.as_slice(), 0, n)
    }
}

impl SystemReport {
    /// Reads the entries of a report text: its lines (`str::lines`), each
    /// split at its first tab (`split_once('\t')`).
    pub fn parse(text: &str) -> (r: SystemReport)
        ensures
            r@ == report_entries(text@),
    {
        let chars = chars_of(text);
        let n = chars.len();
        let mut entries: Vec<(Vec<char>, Vec<char>)> = Vec::new();
        let mut cur: Vec<char> = Vec::new();
        assert(chars@.take(0) =~= Seq::<char>::empty());
        for i in 0..n
            invariant
                n == chars@.len(),
                chars@ == text@,
                line_scan(chars@.take(i as int)).1 == cur@,
                entries_view(entries@) == entries_of(line_scan(chars@.take(i as int)).0),
        {
            let c = chars[i];
            let ghost before = chars@.take(i as int);
            assert(chars@.take(i + 1).drop_last() =~= before);
            assert(chars@.take(i + 1).last() == c);
            if c == '\n' {
                let line = strip_cr_exec(&cur);
                push_entry(&mut entries, line.as_slice());
                cur = Vec::new();
                proof {
                    let d = line_scan(before).0.push(strip_cr(line_scan(before).1));
                    assert(d.drop_last() =~= line_scan(before).0);
                    assert(cur@ =~= Seq::<char>::empty());
                }
            } else {
                cur.push(c);
            }
        }
        assert(chars@.take(n as int) =~= chars@);
        if cur.len() > 0 {
            push_entry(&mut entries, cur.as_slice());
            proof {
                let d = line_scan(text@).0.push(line_scan(text@).1);
                assert(d.drop_last() =~= line_scan(text@).0);
            }
        }
        SystemReport { entries }
    }

    /// The value of the last entry named `key`, as characters.
    pub fn value_chars(&self, key: &[char]) -> (r: Option<Vec<char>>)
        ensures
            r is Some <==> lookup(self@, key@) is Some,
            r matches Some(v) ==> lookup(self@, key@) == Some(v@),
    {
        let n = self.entries.len();
        let mut found: Option<usize> = None;
        let ghost all = entries_view(self.entries@);
        assert(all.take(0) =~= Seq::<(Seq<char>, Seq<char>)>::empty());
        for i in 0..n
            invariant
                n == self.entries@.len(),
                all == entries_view(self.entries@),
                found matches Some(j) ==> j < i && lookup(all.take(i as int), key@) == Some(all[j as int].1),
                found is None ==> lookup(all.take(i as int), key@) is None,
        {
            assert(all.take(i + 1).drop_last() =~= all.take(i as int));
            assert(all.take(i + 1).last() == all[i as int]);
            if chars_equal(self.entries[i].0.as_slice(), key) {
                found = Some(i);
            }
        }
        assert(all.take(n as int) =~= all);
        match found {
            Some(j) => Some(copy_range(self.entries[j].1.as_slice(), 0, self.entries[j].1.len())),
            None => None,
        }
    }

    /// The value of the last entry named `key` (as a lookup in the map that
    /// collecting the entries builds).
    pub fn get(&self, key: &str) -> (r: Option<String>)
        ensures
            r is Some <==> lookup(self@, key@) is Some,
            r matches Some(v) ==> lookup(self@, key@) == Some(v@),
    {
        let k = chars_of(key);
        match self.value_chars(k.as_slice()) {
            Some(v) => Some(string_from_chars(v.as_slice())),
            None => None,
        }
    }
}

proof fn lemma_line_scan_append_partial(p: Seq<char>, m: Seq<char>)
    requires
        forall|i: int| 0 <= i < m.len() ==> m[i] != '\n',
    ensures
        line_scan(p + m) == (line_scan(p).0, line_scan(p).1 + m),
    decreases m.len(),
{
    if m.len() == 0 {
        assert(p + m =~= p);
        assert(line_scan(p).1 + m =~= line_scan(p).1);
    } else {
        lemma_line_scan_append_partial(p, m.drop_last());
        assert((p + m).drop_last() =~= p + m.drop_last());
        assert((p + m).last() == m.last());
        assert(line_scan(p).1 + m.drop_last() + seq![m.last()] =~= line_scan(p).1 + m);
    }
}

/// A report whose last line is `key<TAB>value` gives `value` for `key`,
/// whatever the lines before it hold: a later line with a name overrides an
/// earlier one.
pub proof fn lemma_last_line_wins(text: Seq<char>, key: Seq<char>, value: Seq<char>)
    requires
        forall|i: int| 0 <= i < key.len() ==> key[i] != '\n' && key[i] != '\t',
        forall|i: int| 0 <= i < value.len() ==> value[i] != '\n',
    ensures
        report_value(text + seq!['\n'] + key + seq!['\t'] + value, key) == Some(value),
{
    let m = key + seq!['\t'] + value;
    let head = text + seq!['\n'];
    let s = head + m;
    assert(text + seq!['\n'] + key + seq!['\t'] + value =~= s);
    assert(forall|i: int| 0 <= i < m.len() ==> m[i] != '\n') by {
        assert forall|i: int| 0 <= i < m.len() implies m[i] != '\n' by {
            if i < key.len() {
                assert(m[i] == key[i]);
            } else if i > key.len() {
                assert(m[i] == value[i - key.len() - 1]);
            }
        }
    }
    assert(head.drop_last() =~= text);
    let d = line_scan(text).0.push(strip_cr(line_scan(text).1));
    assert(line_scan(head) == (d, Seq::<char>::empty()));
    lemma_line_scan_append_partial(head, m);
    assert(Seq::<char>::empty() + m =~= m);
    assert(lines(s) == d.push(m));
    assert(is_first_index(m, '\t', key.len() as int));
    let i = choose|i: int| is_first_index(m, '\t', i);
    assert(i == key.len());
    assert(m.take(i) =~= key);
    assert(m.skip(i + 1) =~= value);
    assert(d.push(m).drop_last() =~= d);
}

/// `s` holds no tab.
pub open spec fn tab_free(s: Seq<char>) -> bool {
    forall|i: int| 0 <= i < s.len() ==> s[i] != '\t'
}

proof fn lemma_line_scan_concat(x: Seq<char>, y: Seq<char>)
    requires
        line_scan(x).1.len() == 0,
    ensures
        line_scan(x + y).0 == line_scan(x).0 + line_scan(y).0,
        line_scan(x + y).1 == line_scan(y).1,
    decreases y.len(),
{
    if y.len() == 0 {
        assert(x + y =~= x);
        assert(line_scan(x).0 + line_scan(y).0 =~= line_scan(x).0);
        assert(line_scan(y).1 =~= line_scan(x).1);
    } else {
        lemma_line_scan_concat(x, y.drop_last());
        assert((x + y).drop_last() =~= x + y.drop_last());
        assert((x + y).last() == y.last());
        let x0 = line_scan(x).0;
        let p = line_scan(y.drop_last());
        if y.last() == '\n' {
            assert((x0 + p.0).push(strip_cr(p.1)) =~= x0 + p.0.push(strip_cr(p.1)));
        }
    }
}

proof fn lemma_entries_concat(l1: Seq<Seq<char>>, l2: Seq<Seq<char>>)
    ensures
        entries_of(l1 + l2) == entries_of(l1) + entries_of(l2),
    decreases l2.len(),
{
    if l2.len() == 0 {
        assert(l1 + l2 =~= l1);
        assert(entries_of(l1) + entries_of(l2) =~= entries_of(l1));
    } else {
        lemma_entries_concat(l1, l2.drop_last());
        assert((l1 + l2).drop_last() =~= l1 + l2.drop_last());
        assert((l1 + l2).last() == l2.last());
        let e1 = entries_of(l1);
        let e2 = entries_of(l2.drop_last());
        match split_at_tab(l2.last()) {
            Some(e) => {
                assert((e1 + e2).push(e) =~= e1 + e2.push(e));
            },
            None => {},
        }
    }
}

proof fn lemma_no_tab_no_split(line: Seq<char>)
    requires
        tab_free(line),
    ensures
        split_at_tab(line) is None,
{
    assert(forall|i: int| !is_first_index(line, '\t', i));
}

proof fn lemma_line_scan_tab_free(y: Seq<char>)
    requires
        tab_free(y),
    ensures
        forall|i: int| 0 <= i < line_scan(y).0.len() ==> tab_free(#[trigger] line_scan(y).0[i]),
        tab_free(line_scan(y).1),
    decreases y.len(),
{
    if y.len() > 0 {
        let z = y.drop_last();
        assert(tab_free(z));
        lemma_line_scan_tab_free(z);
        let p = line_scan(z);
        if y.last() == '\n' {
            assert(tab_free(strip_cr(p.1)));
            assert forall|i: int| 0 <= i < line_scan(y).0.len() implies tab_free(#[trigger] line_scan(y).0[i]) by {
                if i < p.0.len() {
                    assert(line_scan(y).0[i] == p.0[i]);
                }
            }
        } else {
            assert(y[y.len() - 1] != '\t');
        }
    }
}

proof fn lemma_entries_of_tab_free(ls: Seq<Seq<char>>)
    requires
        forall|i: int| 0 <= i < ls.len() ==> tab_free(#[trigger] ls[i]),
    ensures
        entries_of(ls) == Seq::<(Seq<char>, Seq<char>)>::empty(),
    decreases ls.len(),
{
    if ls.len() > 0 {
        assert(tab_free(ls[ls.len() - 1]));
        lemma_no_tab_no_split(ls.last());
        lemma_entries_of_tab_free(ls.drop_last());
    }
}

/// Lines without a tab, blank ones included, add no entry: appending to a
/// report (whose last line does not end in `\r`) a line break and text
/// holding no tab leaves its entries, and so every value it gives, as they
/// were.
pub proof fn lemma_untabbed_lines_add_nothing(a: Seq<char>, b: Seq<char>, key: Seq<char>)
    requires
        !(a.len() > 0 && a.last() == '\r'),
        tab_free(b),
    ensures
        report_entries(a + seq!['\n'] + b) == report_entries(a),
        report_value(a + seq!['\n'] + b, key) == report_value(a, key),
{
    let x = a + seq!['\n'];
    assert(x.drop_last() =~= a);
    let la = line_scan(a);
    if la.1.len() > 0 {
        assert(a.len() > 0);
        if a.last() == '\n' {
            assert(line_scan(a).1.len() == 0);
        } else {
            assert(la.1.last() == a.last());
        }
    }
    assert(strip_cr(la.1) == la.1);
    let x0 = la.0.push(la.1);
    assert(line_scan(x).0 == x0);
    assert(line_scan(x).1.len() == 0);
    lemma_line_scan_concat(x, b);
    let lb = line_scan(b);
    assert(lines(x + b) =~= x0 + lines(b));
    lemma_entries_concat(x0, lines(b));
    lemma_line_scan_tab_free(b);
    assert forall|i: int| 0 <= i < lines(b).len() implies tab_free(#[trigger] lines(b)[i]) by {
        if i < lb.0.len() {
            assert(lines(b)[i] == lb.0[i]);
        }
    }
    lemma_entries_of_tab_free(lines(b));
    assert(entries_of(x0) + Seq::<(Seq<char>, Seq<char>)>::empty() =~= entries_of(x0));
    assert(x0.drop_last() =~= la.0);
    if la.1.len() == 0 {
        assert(tab_free(la.1));
        lemma_no_tab_no_split(la.1);
    }
    assert(x + b =~= a + seq!['\n'] + b);
}

} // verus!
