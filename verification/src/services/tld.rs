//! Public suffixes: the table of known suffixes, and the parts of a domain
//! name that it determines.
//!
//! A name is read as labels separated by dots. Its suffix is the longest
//! run of trailing labels that the table lists, or the last label when the
//! table lists none of them. The label before the suffix is the domain, and
//! what stands before the domain is the sub-domain.

use crate::text::{
    all_plain, count, count_of, cut, find_from, join, lemma_join_concat, lemma_join_split,
    lemma_piece_between, lemma_pieces_around, lemma_split_all_plain, lemma_split_at,
    lemma_split_join, lemma_split_len, lemma_split_plain, occurs, positions, split, starts_with,
    to_chars, trim, trim_bounds,
};
use vstd::prelude::*;
use vstd::slice::*;

verus! {

// ---------------------------------------------------------------------------
// The table
// ---------------------------------------------------------------------------

/// A line of the suffix list that names a suffix: not blank, and no comment.
pub open spec fn is_entry(line: Seq<char>) -> bool {
    line.len() > 0 && !starts_with(line, seq!['/', '/'])
}

/// The suffixes that the given lines name, in order: each line is trimmed,
/// and blank lines and comments are left out.
pub open spec fn entries_of(lines: Seq<Seq<char>>) -> Seq<Seq<char>>
    decreases lines.len(),
{
    if lines.len() == 0 {
        Seq::<Seq<char>>::empty()
    } else {
        let line = trim(lines[0]);
        let head = if is_entry(line) {
            seq![line]
        } else {
            Seq::<Seq<char>>::empty()
        };
        head + entries_of(lines.drop_first())
    }
}

/// The suffixes that a suffix list names, in the order of its lines.
pub open spec fn suffix_lines(text: Seq<char>) -> Seq<Seq<char>> {
    entries_of(split(text, '\n'))
}

/// The rows of a table of characters, as sequences.
pub open spec fn rows(table: Seq<Vec<char>>) -> Seq<Seq<char>> {
    Seq::new(table.len(), |i: int| table[i]@)
}

/// The known public suffixes. Built once, then only read.
pub struct SuffixTable {
    suffixes: Vec<Vec<char>>,
}

impl View for SuffixTable {
    type V = Seq<Seq<char>>;

    /// The suffixes, in the order in which the list named them.
    closed spec fn view(&self) -> Seq<Seq<char>> {
        rows(self.suffixes@)
    }
}

impl SuffixTable {
    /// Reads a suffix list: one suffix per line; blank lines and lines that
    /// begin with `//` are passed over. An empty list gives an empty table.
    pub fn parse(text: &str) -> (table: SuffixTable)
        ensures
            table@ == suffix_lines(text@),
    {
        let chars = to_chars(text);
        let n: usize = chars.len();
        let mut suffixes: Vec<Vec<char>> = Vec::new();
        let mut start: usize = 0;
        proof {
            assert(text@.skip(0) =~= text@);
            assert(rows(suffixes@) + suffix_lines(text@) =~= suffix_lines(text@));
        }
        loop
            invariant_except_break
                suffix_lines(text@) == rows(suffixes@) + entries_of(
                    split(text@.skip(start as int), '\n'),
                ),
            invariant
                chars@ == text@,
                n == chars.len(),
                start <= n,
            ensures
                rows(suffixes@) == suffix_lines(text@),
            decreases n - start,
        {
            let end = find_from(&chars, start, '\n');
            let bounds = trim_bounds(&chars, start, end);
            let first: usize = bounds.0;
            let last: usize = bounds.1;
            let ghost rest = text@.skip(start as int);
            let ghost line = text@.subrange(start as int, end as int);
            let ghost trimmed = trim(line);
            let ghost before = rows(suffixes@);
            let ghost lines = split(rest, '\n');
            proof {
                assert(rest.take(end - start) =~= line);
                if end < n {
                    lemma_split_at(rest, '\n', end - start);
                    lemma_split_plain(line, '\n');
                    assert(rest.skip(end - start + 1) =~= text@.skip(end + 1));
                    assert(lines.drop_first() =~= split(text@.skip(end + 1), '\n'));
                } else {
                    assert(rest =~= line);
                    lemma_split_plain(line, '\n');
                    assert(lines.drop_first() =~= Seq::<Seq<char>>::empty());
                }
                assert(lines[0] == line);
                if trimmed.len() >= 2 {
                    assert(trimmed.subrange(0, 2) =~= seq![trimmed[0], trimmed[1]]);
                    assert(seq!['/', '/'][0] == '/' && seq!['/', '/'][1] == '/');
                }
            }
            let comment = last - first >= 2 && chars[first] == '/' && chars[first + 1] == '/';
            assert(comment == starts_with(trimmed, seq!['/', '/']));
            if first < last && !comment {
                let entry = slice_to_vec(slice_subrange(chars.as_slice(), first, last));
                suffixes.push(entry);
                proof {
                    assert(rows(suffixes@) =~= before + seq![trimmed]);
                    assert(before + (seq![trimmed] + entries_of(lines.drop_first())) =~= (before
                        + seq![trimmed]) + entries_of(lines.drop_first()));
                }
            } else {
                proof {
                    assert(before + (Seq::<Seq<char>>::empty() + entries_of(lines.drop_first()))
                        =~= before + entries_of(lines.drop_first()));
                }
            }
            if end == n {
                proof {
                    assert(rows(suffixes@) + Seq::<Seq<char>>::empty() =~= rows(suffixes@));
                }
                break ;
            }
            start = end + 1;
        }
        SuffixTable { suffixes }
    }

    /// How many suffixes the table holds.
    pub fn len(&self) -> (n: usize)
        ensures
            n == self@.len(),
    {
        self.suffixes.len()
    }

    /// Whether the table lists what stands in `chars` from position `from` on.
    pub(crate) fn contains_tail(&self, chars: &Vec<char>, from: usize) -> (listed: bool)
        requires
            from <= chars.len(),
        ensures
            listed == self@.contains(chars@.skip(from as int)),
    {
        let wanted: usize = chars.len() - from;
        let ghost tail = chars@.skip(from as int);
        let mut at: usize = 0;
        while at < self.suffixes.len()
            invariant
                from <= chars.len(),
                wanted == chars.len() - from,
                tail == chars@.skip(from as int),
                at <= self.suffixes.len(),
                forall|j: int| 0 <= j < at ==> rows(self.suffixes@)[j] != tail,
            decreases self.suffixes.len() - at,
        {
            let entry = &self.suffixes[at];
            proof {
                assert(chars@.subrange(from as int, from + wanted) =~= tail);
                assert(rows(self.suffixes@)[at as int] == entry@);
            }
            if entry.len() == wanted && occurs(chars, entry, from) {
                return true;
            }
            at += 1;
        }
        false
    }

    /// Whether the table lists `candidate`: an exact match, case and all.
    pub fn contains(&self, candidate: &str) -> (listed: bool)
        ensures
            listed == self@.contains(candidate@),
    {
        let chars = to_chars(candidate);
        proof {
            assert(chars@.skip(0) =~= candidate@);
        }
        self.contains_tail(&chars, 0)
    }
}

// ---------------------------------------------------------------------------
// The parts of a name
// ---------------------------------------------------------------------------

/// The labels of a name: what stands between its dots.
pub open spec fn labels(name: Seq<char>) -> Seq<Seq<char>> {
    split(name, '.')
}

/// The name from its label number `from` on.
pub open spec fn candidate(name: Seq<char>, from: int) -> Seq<char> {
    join(labels(name).skip(from), '.')
}

/// The number of the first label, at or after `from`, from which on the name
/// is a listed suffix; the number of labels when there is none.
pub open spec fn first_listed(table: Seq<Seq<char>>, name: Seq<char>, from: int) -> int
    decreases labels(name).len() - from,
{
    if from >= labels(name).len() {
        labels(name).len() as int
    } else if table.contains(candidate(name, from)) {
        from
    } else {
        first_listed(table, name, from + 1)
    }
}

/// The suffix of a name: the longest listed run of trailing labels, or the
/// last label when none is listed.
pub open spec fn resolve_suffix(table: Seq<Seq<char>>, name: Seq<char>) -> Seq<char> {
    let first = first_listed(table, name, 0);
    if first < labels(name).len() {
        candidate(name, first)
    } else {
        labels(name).last()
    }
}

/// Sub-domain, domain and suffix of a name, where the name has a label for
/// the domain and at least one more before it.
pub open spec fn decompose(table: Seq<Seq<char>>, name: Seq<char>) -> Option<
    (Seq<char>, Seq<char>, Seq<char>),
> {
    let suffix = resolve_suffix(table, name);
    let suffix_labels = count(suffix, '.') + 1;
    let all = labels(name);
    if all.len() < suffix_labels + 2 {
        None
    } else {
        let bound = all.len() - suffix_labels - 1;
        Some((join(all.subrange(0, bound), '.'), all[bound], suffix))
    }
}

/// The parts of a name as sequences of characters.
pub open spec fn parts_view(parts: Option<(String, String, String)>) -> Option<
    (Seq<char>, Seq<char>, Seq<char>),
> {
    match parts {
        Some(found) => Some((found.0@, found.1@, found.2@)),
        None => None,
    }
}

/// `first_listed` stays within the labels, and skips only what is not listed.
pub proof fn lemma_first_listed(table: Seq<Seq<char>>, name: Seq<char>, from: int)
    requires
        0 <= from <= labels(name).len(),
    ensures
        from <= first_listed(table, name, from) <= labels(name).len(),
        first_listed(table, name, from) < labels(name).len() ==> table.contains(
            candidate(name, first_listed(table, name, from)),
        ),
        forall|i: int|
            from <= i < first_listed(table, name, from) ==> !table.contains(
                #[trigger] candidate(name, i),
            ),
    decreases labels(name).len() - from,
{
    if from < labels(name).len() && !table.contains(candidate(name, from)) {
        lemma_first_listed(table, name, from + 1);
    }
}

/// The suffix of a name is the name from one of its labels on: from label
/// `n - k`, where `n` is the number of the name's labels and `k` that of the
/// suffix's.
pub proof fn lemma_suffix_is_tail(table: Seq<Seq<char>>, name: Seq<char>)
    ensures
        ({
            let suffix = resolve_suffix(table, name);
            let k = count(suffix, '.') + 1;
            &&& 1 <= k <= labels(name).len()
            &&& suffix == candidate(name, labels(name).len() - k)
        }),
{
    let all = labels(name);
    let n = all.len() as int;
    let first = first_listed(table, name, 0);
    lemma_split_len(name, '.');
    lemma_first_listed(table, name, 0);
    if first < n {
        lemma_tail_length(name, first);
    } else {
        lemma_tail_length(name, n - 1);
        assert(all.skip(n - 1)[0] == all.last());
    }
}

/// The suffix of a name is its longest listed run of trailing labels: no
/// longer run of them is listed. Where none of them is listed at all, the
/// suffix is the last label.
pub proof fn lemma_suffix_is_longest_listed(table: Seq<Seq<char>>, name: Seq<char>)
    ensures
        ({
            let suffix = resolve_suffix(table, name);
            let first = labels(name).len() - (count(suffix, '.') + 1);
            &&& forall|i: int| 0 <= i < first ==> !table.contains(#[trigger] candidate(name, i))
            &&& table.contains(suffix) || {
                &&& suffix == labels(name).last()
                &&& forall|i: int|
                    0 <= i < labels(name).len() ==> !table.contains(#[trigger] candidate(name, i))
            }
        }),
{
    lemma_suffix_is_tail(table, name);
    lemma_first_listed(table, name, 0);
    lemma_split_len(name, '.');
    let n = labels(name).len() as int;
    let found = first_listed(table, name, 0);
    let suffix = resolve_suffix(table, name);
    let first = n - (count(suffix, '.') + 1);
    if found < n {
        lemma_tail_length(name, found);
        assert(first == found);
    }
}

/// The name from one of its labels on has as many labels as are left.
pub proof fn lemma_tail_length(name: Seq<char>, from: int)
    requires
        0 <= from < labels(name).len(),
    ensures
        count(candidate(name, from), '.') + 1 == labels(name).len() - from,
{
    let tail = labels(name).skip(from);
    lemma_split_all_plain(name, '.');
    assert(all_plain(tail, '.')) by {
        assert forall|i: int| 0 <= i < tail.len() implies count(#[trigger] tail[i], '.') == 0 by {
            assert(tail[i] == labels(name)[from + i]);
        }
    }
    lemma_split_join(tail, '.');
    lemma_split_len(candidate(name, from), '.');
}

/// A name that can be taken apart is put together again from its parts:
/// sub-domain, dot, domain, dot, suffix.
pub proof fn lemma_parts_rebuild_name(table: Seq<Seq<char>>, name: Seq<char>)
    requires
        decompose(table, name) is Some,
    ensures
        ({
            let parts = decompose(table, name)->0;
            parts.0 + seq!['.'] + parts.1 + seq!['.'] + parts.2 == name
        }),
{
    let all = labels(name);
    let n = all.len() as int;
    let suffix = resolve_suffix(table, name);
    let k = count(suffix, '.') + 1;
    let bound = n - k - 1;
    lemma_suffix_is_tail(table, name);
    lemma_join_split(name, '.');
    let front = all.subrange(0, bound);
    let back = all.skip(bound);
    assert(front + back =~= all);
    lemma_join_concat(front, back, '.');
    assert(back.drop_first() =~= all.skip(bound + 1));
    assert(back[0] == all[bound]);
    assert(join(front, '.') + seq!['.'] + (all[bound] + seq!['.'] + suffix) =~= join(front, '.')
        + seq!['.'] + all[bound] + seq!['.'] + suffix);
}

/// The suffix of `fqdn`: the longest run of its trailing labels that the
/// table lists, or its last label when the table lists none.
pub fn get_tld(fqdn: &str, suffixes: &SuffixTable) -> (tld: String)
    ensures
        tld@ == resolve_suffix(suffixes@, fqdn@),
{
    let chars = to_chars(fqdn);
    let n: usize = chars.len();
    let dots = positions(&chars, '.');
    proof {
        lemma_split_len(fqdn@, '.');
        lemma_join_split(fqdn@, '.');
        assert(labels(fqdn@).skip(0) =~= labels(fqdn@));
        assert(fqdn@.skip(0) =~= fqdn@);
    }
    if suffixes.contains_tail(&chars, 0) {
        return cut(fqdn, 0, n);
    }
    let mut start: usize = 0;
    let mut seen: usize = 0;
    while seen < dots.len()
        invariant
            chars@ == fqdn@,
            n == chars.len(),
            start <= n,
            seen <= dots.len(),
            dots.len() + 1 == labels(fqdn@).len(),
            forall|k: int|
                0 <= k < dots.len() ==> {
                    &&& (#[trigger] dots[k]) < chars.len()
                    &&& chars@[dots[k] as int] == '.'
                    &&& count(chars@.take(dots[k] as int), '.') == k
                },
            candidate(fqdn@, seen as int) == fqdn@.skip(start as int),
            first_listed(suffixes@, fqdn@, 0) == first_listed(suffixes@, fqdn@, seen + 1),
        decreases dots.len() - seen,
    {
        start = dots[seen] + 1;
        proof {
            lemma_pieces_around(fqdn@, '.', dots[seen as int] as int);
        }
        if suffixes.contains_tail(&chars, start) {
            return cut(fqdn, start, n);
        }
        seen += 1;
    }
    proof {
        let all = labels(fqdn@);
        assert(all.skip(seen as int)[0] == all.last());
    }
    cut(fqdn, start, n)
}

/// Sub-domain, domain and suffix of `fqdn`; `None` where the name has too
/// few labels to hold a domain and a sub-domain before its suffix.
pub fn extract_domain_parts(fqdn: &str, suffixes: &SuffixTable) -> (parts: Option<
    (String, String, String),
>)
    ensures
        parts_view(parts) == decompose(suffixes@, fqdn@),
{
    let tld = get_tld(fqdn, suffixes);
    let tld_dots = count_chars(tld.as_str(), '.');
    let chars = to_chars(fqdn);
    let dots = positions(&chars, '.');
    let total: usize = dots.len();
    proof {
        lemma_split_len(fqdn@, '.');
    }
    if total >= 2 && total - 2 >= tld_dots {
        let bound: usize = total - tld_dots - 1;
        let before: usize = dots[bound - 1];
        let after: usize = dots[bound];
        proof {
            lemma_pieces_around(fqdn@, '.', before as int);
            lemma_piece_between(fqdn@, '.', before as int, after as int);
            assert(fqdn@.take(before as int) =~= fqdn@.subrange(0, before as int));
        }
        Some((cut(fqdn, 0, before), cut(fqdn, before + 1, after), tld))
    } else {
        None
    }
}

/// How often `pattern` occurs in `expression`.
pub fn count_chars(expression: &str, pattern: char) -> (total: usize)
    ensures
        total == count(expression@, pattern),
{
    let chars = to_chars(expression);
    count_of(&chars, pattern)
}

} // verus!
