//! Text as sequences of characters.
//!
//! Every contract of this crate that speaks of a string speaks of its view, a
//! `Seq<char>`. This module defines the operations on such sequences that the
//! other modules are stated over (counting, splitting, joining, searching,
//! replacing, trimming), the facts that relate them, and the executable
//! helpers that compute them on `&str` and `Vec<char>`.

use vstd::prelude::*;
use vstd::std_specs::iter::IteratorSpec;

verus! {

// ---------------------------------------------------------------------------
// Counting, splitting and joining
// ---------------------------------------------------------------------------

/// How often `c` occurs in `s`.
pub open spec fn count(s: Seq<char>, c: char) -> nat
    decreases s.len(),
{
    if s.len() == 0 {
        0
    } else {
        count(s.drop_first(), c) + if s[0] == c {
            1nat
        } else {
            0nat
        }
    }
}

/// The pieces of `s` between the occurrences of `sep`, in order. There is
/// always at least one piece; pieces may be empty.
pub open spec fn split(s: Seq<char>, sep: char) -> Seq<Seq<char>>
    decreases s.len(),
{
    if s.len() == 0 {
        seq![Seq::<char>::empty()]
    } else {
        let rest = split(s.drop_first(), sep);
        if s[0] == sep {
            seq![Seq::<char>::empty()] + rest
        } else {
            rest.update(0, seq![s[0]] + rest[0])
        }
    }
}

/// The pieces put together again, with `sep` between neighbours.
pub open spec fn join(parts: Seq<Seq<char>>, sep: char) -> Seq<char>
    decreases parts.len(),
{
    if parts.len() == 0 {
        Seq::<char>::empty()
    } else if parts.len() == 1 {
        parts[0]
    } else {
        parts[0] + seq![sep] + join(parts.drop_first(), sep)
    }
}

/// No piece holds the separator.
pub open spec fn all_plain(parts: Seq<Seq<char>>, sep: char) -> bool {
    forall|k: int| 0 <= k < parts.len() ==> count(#[trigger] parts[k], sep) == 0
}

/// Counting distributes over concatenation.
pub proof fn lemma_count_concat(a: Seq<char>, b: Seq<char>, c: char)
    ensures
        count(a + b, c) == count(a, c) + count(b, c),
    decreases a.len(),
{
    if a.len() == 0 {
        assert(a + b =~= b);
    } else {
        assert((a + b).drop_first() =~= a.drop_first() + b);
        lemma_count_concat(a.drop_first(), b, c);
    }
}

/// There is one piece more than there are separators.
pub proof fn lemma_split_len(s: Seq<char>, sep: char)
    ensures
        split(s, sep).len() == count(s, sep) + 1,
    decreases s.len(),
{
    if s.len() > 0 {
        lemma_split_len(s.drop_first(), sep);
    }
}

/// A text without separator is its own single piece.
pub proof fn lemma_split_plain(s: Seq<char>, sep: char)
    requires
        count(s, sep) == 0,
    ensures
        split(s, sep) == seq![s],
    decreases s.len(),
{
    if s.len() > 0 {
        lemma_split_plain(s.drop_first(), sep);
        assert(seq![s[0]] + s.drop_first() =~= s);
        assert(seq![s.drop_first()].update(0, s) =~= seq![s]);
    } else {
        assert(s =~= Seq::<char>::empty());
    }
}

/// Splitting at a separator: the pieces of the whole are the pieces of what
/// stands before it, followed by the pieces of what stands after it.
pub proof fn lemma_split_at(s: Seq<char>, sep: char, at: int)
    requires
        0 <= at < s.len(),
        s[at] == sep,
    ensures
        split(s, sep) == split(s.take(at), sep) + split(s.skip(at + 1), sep),
    decreases at,
{
    if at == 0 {
        assert(s.take(0) =~= Seq::<char>::empty());
        assert(s.drop_first() =~= s.skip(1));
    } else {
        let tail = s.drop_first();
        lemma_split_at(tail, sep, at - 1);
        assert(tail.take(at - 1) =~= s.take(at).drop_first());
        assert(tail.skip(at) =~= s.skip(at + 1));
        let before = split(tail.take(at - 1), sep);
        let after = split(s.skip(at + 1), sep);
        lemma_split_len(tail.take(at - 1), sep);
        assert(s.take(at)[0] == s[0]);
        if s[0] == sep {
            assert(seq![Seq::<char>::empty()] + (before + after) =~= (seq![Seq::<char>::empty()]
                + before) + after);
        } else {
            assert((before + after).update(0, seq![s[0]] + (before + after)[0]) =~= before.update(
                0,
                seq![s[0]] + before[0],
            ) + after);
        }
    }
}

/// Joining the pieces of a text gives the text back.
pub proof fn lemma_join_split(s: Seq<char>, sep: char)
    ensures
        join(split(s, sep), sep) == s,
    decreases s.len(),
{
    if s.len() == 0 {
        assert(s =~= Seq::<char>::empty());
    } else {
        let rest = split(s.drop_first(), sep);
        lemma_join_split(s.drop_first(), sep);
        lemma_split_len(s.drop_first(), sep);
        if s[0] == sep {
            let whole = seq![Seq::<char>::empty()] + rest;
            assert(whole.drop_first() =~= rest);
            assert(Seq::<char>::empty() + seq![sep] + s.drop_first() =~= s);
        } else {
            let head = seq![s[0]] + rest[0];
            let whole = rest.update(0, head);
            if rest.len() == 1 {
                assert(head =~= s);
            } else {
                assert(whole.drop_first() =~= rest.drop_first());
                assert(head + seq![sep] + join(rest.drop_first(), sep) =~= seq![s[0]] + (rest[0]
                    + seq![sep] + join(rest.drop_first(), sep)));
                assert(seq![s[0]] + s.drop_first() =~= s);
            }
        }
    }
}

/// No piece of a split holds the separator.
pub proof fn lemma_split_all_plain(s: Seq<char>, sep: char)
    ensures
        all_plain(split(s, sep), sep),
    decreases s.len(),
{
    if s.len() > 0 {
        let rest = split(s.drop_first(), sep);
        lemma_split_all_plain(s.drop_first(), sep);
        lemma_split_len(s.drop_first(), sep);
        let whole = split(s, sep);
        assert forall|k: int| 0 <= k < whole.len() implies count(#[trigger] whole[k], sep)
            == 0 by {
            if s[0] == sep {
                if k > 0 {
                    assert(whole[k] == rest[k - 1]);
                }
            } else {
                if k == 0 {
                    assert((seq![s[0]] + rest[0]).drop_first() =~= rest[0]);
                } else {
                    assert(whole[k] == rest[k]);
                }
            }
        }
    }
}

/// Joining two runs of pieces puts one separator between the two joins.
pub proof fn lemma_join_concat(a: Seq<Seq<char>>, b: Seq<Seq<char>>, sep: char)
    requires
        a.len() >= 1,
        b.len() >= 1,
    ensures
        join(a + b, sep) == join(a, sep) + seq![sep] + join(b, sep),
    decreases a.len(),
{
    assert((a + b).drop_first() =~= a.drop_first() + b);
    assert((a + b)[0] == a[0]);
    if a.len() == 1 {
        assert(a.drop_first() + b =~= b);
    } else {
        lemma_join_concat(a.drop_first(), b, sep);
        assert(a[0] + seq![sep] + (join(a.drop_first(), sep) + seq![sep] + join(b, sep)) =~= (a[0]
            + seq![sep] + join(a.drop_first(), sep)) + seq![sep] + join(b, sep));
    }
}

/// Pieces that hold no separator are found again by splitting their join.
pub proof fn lemma_split_join(parts: Seq<Seq<char>>, sep: char)
    requires
        parts.len() >= 1,
        all_plain(parts, sep),
    ensures
        split(join(parts, sep), sep) == parts,
    decreases parts.len(),
{
    if parts.len() == 1 {
        lemma_split_plain(parts[0], sep);
        assert(seq![parts[0]] =~= parts);
    } else {
        let rest = parts.drop_first();
        assert(all_plain(rest, sep)) by {
            assert forall|k: int| 0 <= k < rest.len() implies count(#[trigger] rest[k], sep)
                == 0 by {
                assert(rest[k] == parts[k + 1]);
            }
        }
        lemma_split_join(rest, sep);
        let whole = join(parts, sep);
        let at = parts[0].len() as int;
        assert(whole.take(at) =~= parts[0]);
        assert(whole.skip(at + 1) =~= join(rest, sep));
        lemma_split_at(whole, sep, at);
        lemma_split_plain(parts[0], sep);
        assert(seq![parts[0]] + rest =~= parts);
    }
}

/// Where a separator stands at `at`, the pieces before it are those of the
/// text before it, and the pieces after it are those of the text after it.
pub proof fn lemma_pieces_around(s: Seq<char>, sep: char, at: int)
    requires
        0 <= at < s.len(),
        s[at] == sep,
    ensures
        ({
            let k = count(s.take(at), sep) + 1;
            &&& k < split(s, sep).len()
            &&& split(s, sep).subrange(0, k as int) == split(s.take(at), sep)
            &&& split(s, sep).skip(k as int) == split(s.skip(at + 1), sep)
            &&& join(split(s, sep).subrange(0, k as int), sep) == s.take(at)
            &&& join(split(s, sep).skip(k as int), sep) == s.skip(at + 1)
        }),
{
    let k = count(s.take(at), sep) + 1;
    lemma_split_at(s, sep, at);
    lemma_split_len(s.take(at), sep);
    lemma_split_len(s.skip(at + 1), sep);
    let before = split(s.take(at), sep);
    let after = split(s.skip(at + 1), sep);
    assert((before + after).subrange(0, k as int) =~= before);
    assert((before + after).skip(k as int) =~= after);
    lemma_join_split(s.take(at), sep);
    lemma_join_split(s.skip(at + 1), sep);
}

/// Between two neighbouring separators stands one piece.
pub proof fn lemma_piece_between(s: Seq<char>, sep: char, from: int, to: int)
    requires
        0 <= from < to < s.len(),
        s[from] == sep,
        s[to] == sep,
        count(s.take(to), sep) == count(s.take(from), sep) + 1,
    ensures
        count(s.take(from), sep) + 1 < split(s, sep).len(),
        split(s, sep)[(count(s.take(from), sep) + 1) as int] == s.subrange(from + 1, to),
{
    let k = count(s.take(from), sep) + 1;
    lemma_pieces_around(s, sep, from);
    let rest = s.skip(from + 1);
    let end = to - from - 1;
    assert(rest.take(end) =~= s.subrange(from + 1, to));
    assert(s.take(to) =~= s.take(from) + seq![sep] + s.subrange(from + 1, to));
    lemma_count_concat(s.take(from) + seq![sep], s.subrange(from + 1, to), sep);
    lemma_count_concat(s.take(from), seq![sep], sep);
    reveal_with_fuel(count, 2);
    assert(count(rest.take(end), sep) == 0);
    lemma_pieces_around(rest, sep, end);
    lemma_split_plain(rest.take(end), sep);
    assert(split(rest, sep).subrange(0, 1)[0] == split(rest, sep)[0]);
    assert(split(s, sep).skip(k as int)[0] == split(s, sep)[k as int]);
}

// ---------------------------------------------------------------------------
// Searching and replacing
// ---------------------------------------------------------------------------

/// `pat` stands in `s` at position `at`.
pub open spec fn occurs_at(s: Seq<char>, pat: Seq<char>, at: int) -> bool {
    0 <= at && at + pat.len() <= s.len() && s.subrange(at, at + pat.len()) == pat
}

/// `pat` stands somewhere in `s`.
pub open spec fn contains(s: Seq<char>, pat: Seq<char>) -> bool {
    exists|at: int| occurs_at(s, pat, at)
}

/// `s` begins with `pat`.
pub open spec fn starts_with(s: Seq<char>, pat: Seq<char>) -> bool {
    occurs_at(s, pat, 0)
}

/// `s` ends with `pat`.
pub open spec fn ends_with(s: Seq<char>, pat: Seq<char>) -> bool {
    occurs_at(s, pat, s.len() - pat.len())
}

/// `s` with every occurrence of `pat` replaced by `to`. Occurrences are
/// taken from the left and do not overlap; what was put in is not searched
/// again. An empty `pat` occurs nowhere.
pub open spec fn replace(s: Seq<char>, pat: Seq<char>, to: Seq<char>) -> Seq<char>
    decreases s.len(),
{
    if pat.len() == 0 || s.len() < pat.len() {
        s
    } else if starts_with(s, pat) {
        to + replace(s.skip(pat.len() as int), pat, to)
    } else {
        seq![s[0]] + replace(s.skip(1), pat, to)
    }
}

/// A text in which `pat` does not occur is left as it is.
pub proof fn lemma_replace_absent(s: Seq<char>, pat: Seq<char>, to: Seq<char>)
    requires
        !contains(s, pat),
    ensures
        replace(s, pat, to) == s,
    decreases s.len(),
{
    if pat.len() > 0 && s.len() >= pat.len() {
        assert(!occurs_at(s, pat, 0));
        let rest = s.skip(1);
        assert(!contains(rest, pat)) by {
            if contains(rest, pat) {
                let at = choose|at: int| occurs_at(rest, pat, at);
                assert(rest.subrange(at, at + pat.len()) =~= s.subrange(at + 1, at + 1 + pat.len()));
                assert(occurs_at(s, pat, at + 1));
            }
        }
        lemma_replace_absent(rest, pat, to);
        assert(seq![s[0]] + rest =~= s);
    }
}

/// A text that is replaced as a whole gives what was put in its place.
pub proof fn lemma_replace_whole(s: Seq<char>, to: Seq<char>)
    requires
        s.len() > 0,
    ensures
        replace(s, s, to) == to,
{
    assert(s.subrange(0, s.len() as int) =~= s);
    assert(s.skip(s.len() as int) =~= Seq::<char>::empty());
    assert(replace(Seq::<char>::empty(), s, to) =~= Seq::<char>::empty());
    assert(to + Seq::<char>::empty() =~= to);
}

/// The characters of a string.
pub fn to_chars(s: &str) -> (chars: Vec<char>)
    ensures
        chars@ == s@,
{
    let mut chars: Vec<char> = Vec::new();
    let source = s.chars();
    assert(source.remaining() == s@);
    for c in it: source
        invariant
            it.seq() == s@,
            chars@ == it.history(),
    {
        chars.push(c);
    }
    assert(chars@ =~= s@);
    chars
}

/// The part of `s` from character `from` up to, not including, character `to`.
pub(crate) fn cut(s: &str, from: usize, to: usize) -> (part: String)
    requires
        from <= to <= s@.len(),
    ensures
        part@ == s@.subrange(from as int, to as int),
{
    String::from_str(s.substring_char(from, to))
}

/// Whether `pat` stands in `hay` at position `at`.
pub fn occurs(hay: &Vec<char>, pat: &Vec<char>, at: usize) -> (found: bool)
    ensures
        found == occurs_at(hay@, pat@, at as int),
{
    if pat.len() > hay.len() || at > hay.len() - pat.len() {
        return false;
    }
    let mut k: usize = 0;
    while k < pat.len()
        invariant
            at + pat.len() <= hay.len(),
            k <= pat.len(),
            forall|j: int| 0 <= j < k ==> hay@[at + j] == pat@[j],
        decreases pat.len() - k,
    {
        if hay[at + k] != pat[k] {
            assert(hay@.subrange(at as int, at + pat@.len())[k as int] == hay@[at + k]);
            return false;
        }
        k += 1;
    }
    assert(hay@.subrange(at as int, at + pat@.len()) =~= pat@);
    true
}

/// Whether two strings hold the same characters.
pub fn same(a: &str, b: &str) -> (equal: bool)
    ensures
        equal == (a@ == b@),
{
    let left = to_chars(a);
    let right = to_chars(b);
    if left.len() != right.len() {
        return false;
    }
    let found = occurs(&left, &right, 0);
    assert(left@.subrange(0, left@.len() as int) =~= left@);
    found
}

/// Whether `pat` stands somewhere in `s`.
pub fn contains_str(s: &str, pat: &str) -> (found: bool)
    ensures
        found == contains(s@, pat@),
{
    let hay = to_chars(s);
    let needle = to_chars(pat);
    if needle.len() > hay.len() {
        return false;
    }
    let last: usize = hay.len() - needle.len();
    let mut at: usize = 0;
    loop
        invariant
            hay@ == s@,
            needle@ == pat@,
            last == hay.len() - needle.len(),
            at <= last,
            forall|j: int| 0 <= j < at ==> !occurs_at(hay@, needle@, j),
        decreases last - at,
    {
        if occurs(&hay, &needle, at) {
            return true;
        }
        if at == last {
            return false;
        }
        at += 1;
    }
}

/// `s` with every occurrence of `pat` replaced by `to`.
pub fn replace_str(s: &str, pat: &str, to: &str) -> (out: String)
    ensures
        out@ == replace(s@, pat@, to@),
{
    let hay = to_chars(s);
    let needle = to_chars(pat);
    let n: usize = hay.len();
    let m: usize = needle.len();
    if m == 0 || n < m {
        return String::from_str(s);
    }
    let mut out = String::from_str("");
    proof {
        reveal_strlit("");
        assert(out@ + s@.subrange(0, 0) + replace(s@.skip(0), pat@, to@) =~= replace(
            s@,
            pat@,
            to@,
        )) by {
            assert(s@.skip(0) =~= s@);
        }
    }
    let mut kept: usize = 0;
    let mut at: usize = 0;
    while at <= n - m
        invariant
            hay@ == s@,
            needle@ == pat@,
            n == hay.len(),
            m == needle.len(),
            0 < m <= n,
            kept <= at <= n,
            replace(s@, pat@, to@) == out@ + s@.subrange(kept as int, at as int) + replace(
                s@.skip(at as int),
                pat@,
                to@,
            ),
        decreases n - at,
    {
        let ghost rest = s@.skip(at as int);
        if occurs(&hay, &needle, at) {
            proof {
                assert(rest.subrange(0, m as int) =~= s@.subrange(at as int, at + m));
                assert(rest.skip(m as int) =~= s@.skip(at + m));
                assert(out@ + s@.subrange(kept as int, at as int) + (to@ + replace(
                    s@.skip(at + m),
                    pat@,
                    to@,
                )) =~= out@ + s@.subrange(kept as int, at as int) + to@ + s@.subrange(
                    at + m,
                    at + m,
                ) + replace(s@.skip(at + m), pat@, to@));
            }
            out.append(s.substring_char(kept, at));
            out.append(to);
            at += m;
            kept = at;
        } else {
            proof {
                assert(rest.subrange(0, m as int) =~= s@.subrange(at as int, at + m));
                assert(rest.skip(1) =~= s@.skip(at + 1));
                assert(out@ + s@.subrange(kept as int, at as int) + (seq![rest[0]] + replace(
                    s@.skip(at + 1),
                    pat@,
                    to@,
                )) =~= out@ + s@.subrange(kept as int, at + 1) + replace(
                    s@.skip(at + 1),
                    pat@,
                    to@,
                ));
            }
            at += 1;
        }
    }
    proof {
        assert(s@.subrange(kept as int, at as int) + s@.skip(at as int) =~= s@.subrange(
            kept as int,
            n as int,
        ));
        assert(out@ + s@.subrange(kept as int, at as int) + s@.skip(at as int) =~= out@
            + s@.subrange(kept as int, n as int));
    }
    out.append(s.substring_char(kept, n));
    out
}

// ---------------------------------------------------------------------------
// Counting and finding single characters
// ---------------------------------------------------------------------------

/// How often `c` occurs in `chars`.
pub fn count_of(chars: &Vec<char>, c: char) -> (total: usize)
    ensures
        total == count(chars@, c),
{
    let mut total: usize = 0;
    let mut at: usize = 0;
    proof {
        assert(chars@.take(0) =~= Seq::<char>::empty());
    }
    while at < chars.len()
        invariant
            at <= chars.len(),
            total <= at,
            total == count(chars@.take(at as int), c),
        decreases chars.len() - at,
    {
        proof {
            assert(chars@.take(at + 1) =~= chars@.take(at as int) + seq![chars@[at as int]]);
            lemma_count_concat(chars@.take(at as int), seq![chars@[at as int]], c);
            reveal_with_fuel(count, 2);
        }
        if chars[at] == c {
            total += 1;
        }
        at += 1;
    }
    assert(chars@.take(at as int) =~= chars@);
    total
}

/// The positions at which `c` stands in `chars`, in rising order.
pub fn positions(chars: &Vec<char>, c: char) -> (found: Vec<usize>)
    ensures
        found.len() == count(chars@, c),
        forall|k: int|
            0 <= k < found.len() ==> {
                &&& (#[trigger] found[k]) < chars.len()
                &&& chars@[found[k] as int] == c
                &&& count(chars@.take(found[k] as int), c) == k
            },
        forall|j: int, k: int| 0 <= j < k < found.len() ==> found[j] < found[k],
{
    let mut found: Vec<usize> = Vec::new();
    let mut at: usize = 0;
    proof {
        assert(chars@.take(0) =~= Seq::<char>::empty());
    }
    while at < chars.len()
        invariant
            at <= chars.len(),
            found.len() == count(chars@.take(at as int), c),
            forall|k: int|
                0 <= k < found.len() ==> {
                    &&& (#[trigger] found[k]) < at
                    &&& chars@[found[k] as int] == c
                    &&& count(chars@.take(found[k] as int), c) == k
                },
            forall|j: int, k: int| 0 <= j < k < found.len() ==> found[j] < found[k],
        decreases chars.len() - at,
    {
        proof {
            assert(chars@.take(at + 1) =~= chars@.take(at as int) + seq![chars@[at as int]]);
            lemma_count_concat(chars@.take(at as int), seq![chars@[at as int]], c);
            reveal_with_fuel(count, 2);
        }
        if chars[at] == c {
            found.push(at);
        }
        at += 1;
    }
    assert(chars@.take(at as int) =~= chars@);
    found
}

/// The first position at or after `from` at which `c` stands, or the length
/// of `chars` if it stands at none.
pub(crate) fn find_from(chars: &Vec<char>, from: usize, c: char) -> (at: usize)
    requires
        from <= chars.len(),
    ensures
        from <= at <= chars.len(),
        count(chars@.subrange(from as int, at as int), c) == 0,
        at < chars.len() ==> chars@[at as int] == c,
{
    let mut at: usize = from;
    proof {
        assert(chars@.subrange(from as int, from as int) =~= Seq::<char>::empty());
    }
    while at < chars.len() && chars[at] != c
        invariant
            from <= at <= chars.len(),
            count(chars@.subrange(from as int, at as int), c) == 0,
        decreases chars.len() - at,
    {
        proof {
            assert(chars@.subrange(from as int, at + 1) =~= chars@.subrange(
                from as int,
                at as int,
            ) + seq![chars@[at as int]]);
            lemma_count_concat(
                chars@.subrange(from as int, at as int),
                seq![chars@[at as int]],
                c,
            );
            reveal_with_fuel(count, 2);
        }
        at += 1;
    }
    at
}

// ---------------------------------------------------------------------------
// Trimming
// ---------------------------------------------------------------------------

/// White space: the characters that Unicode marks as `White_Space`.
pub open spec fn is_whitespace(c: char) -> bool {
    ||| '\u{9}' <= c <= '\u{d}'
    ||| c == ' '
    ||| c == '\u{85}'
    ||| c == '\u{a0}'
    ||| c == '\u{1680}'
    ||| '\u{2000}' <= c <= '\u{200a}'
    ||| c == '\u{2028}'
    ||| c == '\u{2029}'
    ||| c == '\u{202f}'
    ||| c == '\u{205f}'
    ||| c == '\u{3000}'
}

/// `s` without the white space that it begins with.
pub open spec fn trim_start(s: Seq<char>) -> Seq<char>
    decreases s.len(),
{
    if s.len() > 0 && is_whitespace(s[0]) {
        trim_start(s.drop_first())
    } else {
        s
    }
}

/// `s` without the white space that it ends with.
pub open spec fn trim_end(s: Seq<char>) -> Seq<char>
    decreases s.len(),
{
    if s.len() > 0 && is_whitespace(s.last()) {
        trim_end(s.drop_last())
    } else {
        s
    }
}

/// `s` without white space at either end.
pub open spec fn trim(s: Seq<char>) -> Seq<char> {
    trim_end(trim_start(s))
}

/// Whether `c` is white space.
pub fn whitespace(c: char) -> (white: bool)
    ensures
        white == is_whitespace(c),
{
    ('\u{9}' <= c && c <= '\u{d}') || c == ' ' || c == '\u{85}' || c == '\u{a0}' || c
        == '\u{1680}' || ('\u{2000}' <= c && c <= '\u{200a}') || c == '\u{2028}' || c
        == '\u{2029}' || c == '\u{202f}' || c == '\u{205f}' || c == '\u{3000}'
}

/// The bounds of what is left of `chars[from..to]` when it is trimmed.
pub(crate) fn trim_bounds(chars: &Vec<char>, from: usize, to: usize) -> (bounds: (usize, usize))
    requires
        from <= to <= chars.len(),
    ensures
        from <= bounds.0 <= bounds.1 <= to,
        chars@.subrange(bounds.0 as int, bounds.1 as int) == trim(
            chars@.subrange(from as int, to as int),
        ),
{
    let mut first: usize = from;
    while first < to && whitespace(chars[first])
        invariant
            from <= first <= to <= chars.len(),
            trim_start(chars@.subrange(from as int, to as int)) == trim_start(
                chars@.subrange(first as int, to as int),
            ),
        decreases to - first,
    {
        proof {
            assert(chars@.subrange(first as int, to as int).drop_first() =~= chars@.subrange(
                first + 1,
                to as int,
            ));
        }
        first += 1;
    }
    let mut last: usize = to;
    while last > first && whitespace(chars[last - 1])
        invariant
            first <= last <= to <= chars.len(),
            trim_end(chars@.subrange(first as int, to as int)) == trim_end(
                chars@.subrange(first as int, last as int),
            ),
        decreases last - first,
    {
        proof {
            assert(chars@.subrange(first as int, last as int).drop_last() =~= chars@.subrange(
                first as int,
                last - 1,
            ));
        }
        last -= 1;
    }
    (first, last)
}

// ---------------------------------------------------------------------------
// Lists of keys and values
// ---------------------------------------------------------------------------

/// A list of pairs of strings, as text.
pub open spec fn pairs_view(pairs: Seq<(String, String)>) -> Seq<(Seq<char>, Seq<char>)> {
    Seq::new(pairs.len(), |i: int| (pairs[i].0@, pairs[i].1@))
}

/// The map that a list of keys and values stands for. Where a key stands in
/// the list more than once, its first value counts.
pub open spec fn map_of(pairs: Seq<(Seq<char>, Seq<char>)>) -> Map<Seq<char>, Seq<char>>
    decreases pairs.len(),
{
    if pairs.len() == 0 {
        Map::empty()
    } else {
        map_of(pairs.drop_first()).insert(pairs[0].0, pairs[0].1)
    }
}

/// A key is mapped to the value of the first pair that holds it.
pub proof fn lemma_map_of_first(pairs: Seq<(Seq<char>, Seq<char>)>, key: Seq<char>, at: int)
    requires
        0 <= at < pairs.len(),
        pairs[at].0 == key,
        forall|j: int| 0 <= j < at ==> pairs[j].0 != key,
    ensures
        map_of(pairs).contains_key(key),
        map_of(pairs)[key] == pairs[at].1,
    decreases pairs.len(),
{
    if at > 0 {
        let rest = pairs.drop_first();
        assert forall|j: int| 0 <= j < at - 1 implies rest[j].0 != key by {
            assert(rest[j] == pairs[j + 1]);
        }
        lemma_map_of_first(rest, key, at - 1);
    }
}

/// A key that no pair holds is not mapped.
pub proof fn lemma_map_of_absent(pairs: Seq<(Seq<char>, Seq<char>)>, key: Seq<char>)
    requires
        forall|j: int| 0 <= j < pairs.len() ==> pairs[j].0 != key,
    ensures
        !map_of(pairs).contains_key(key),
    decreases pairs.len(),
{
    if pairs.len() > 0 {
        let rest = pairs.drop_first();
        assert forall|j: int| 0 <= j < rest.len() implies rest[j].0 != key by {
            assert(rest[j] == pairs[j + 1]);
        }
        lemma_map_of_absent(rest, key);
    }
}

} // verus!
