//! Verified text primitives: case folding, substring containment, and
//! splitting a text into lines on newline boundaries.

use vstd::prelude::*;
use vstd::string::*;
use vstd::utf8::is_ascii_chars;

verus! {

// --- ASCII case folding ---

/// ASCII lower-casing of a single character; other characters are unchanged.
pub open spec fn lower_char(c: char) -> char {
    if 'A' <= c && c <= 'Z' {
        (((c as u8) + 32) as char)
    } else {
        c
    }
}

/// Character-wise ASCII lower-casing of a sequence.
pub open spec fn lower_seq(s: Seq<char>) -> Seq<char> {
    Seq::new(s.len(), |i: int| lower_char(s[i]))
}

/// The result of Unicode lower-casing, as a function of the characters
/// alone.
pub uninterp spec fn lower_of(s: Seq<char>) -> Seq<char>;

/// Relies on str::to_lowercase: the result depends on the characters alone;
/// on ASCII text it is exactly ASCII lower-casing, and an empty string stays
/// empty.
#[verifier::external_body]
fn to_lowercase(s: &str) -> (r: String)
    ensures
        r@ == lower_of(s@),
        is_ascii_chars(s@) ==> r@ == lower_seq(s@),
        s@.len() == 0 ==> r@.len() == 0,
{
    s.to_lowercase()
}

// --- substring containment ---

/// `pat` occurs in `text` starting at index `i`.
pub open spec fn contains_at(text: Seq<char>, pat: Seq<char>, i: int) -> bool {
    &&& 0 <= i
    &&& i + pat.len() <= text.len()
    &&& text.subrange(i, i + pat.len() as int) == pat
}

/// `pat` occurs somewhere in `text`; the empty sequence occurs in every text.
pub open spec fn contains_seq(text: Seq<char>, pat: Seq<char>) -> bool {
    exists|i: int| contains_at(text, pat, i)
}

/// Folds case (by Unicode lower-casing) when `ignore_case` is set, else
/// leaves the sequence alone.
pub open spec fn fold_case(s: Seq<char>, ignore_case: bool) -> Seq<char> {
    if ignore_case {
        lower_of(s)
    } else {
        s
    }
}

/// The literal-mode match predicate: after optional case folding of both
/// sides, the query occurs in the line as a substring.
pub open spec fn line_matches(line: Seq<char>, query: Seq<char>, ignore_case: bool) -> bool {
    contains_seq(fold_case(line, ignore_case), fold_case(query, ignore_case))
}

/// Containment survives case folding: a verbatim occurrence is also an
/// occurrence of the folded pattern in the folded text.
pub proof fn lemma_contains_lower(text: Seq<char>, pat: Seq<char>)
    requires
        contains_seq(text, pat),
    ensures
        contains_seq(lower_seq(text), lower_seq(pat)),
{
    let i = choose|i: int| contains_at(text, pat, i);
    assert forall|j: int| 0 <= j < pat.len() implies lower_seq(text)[i + j] == lower_seq(pat)[j] by {
        assert(text.subrange(i, i + pat.len() as int)[j] == text[i + j]);
    }
    assert(lower_seq(text).subrange(i, i + lower_seq(pat).len() as int) =~= lower_seq(pat));
    assert(contains_at(lower_seq(text), lower_seq(pat), i));
}

// --- filtering sequences ---

/// Filtering a sequence extended by one element keeps the filtered prefix
/// and appends the element exactly when it satisfies the predicate.
pub proof fn lemma_filter_push<A>(s: Seq<A>, x: A, pred: spec_fn(A) -> bool)
    ensures
        s.push(x).filter(pred) == s.filter(pred) + (if pred(x) {
            seq![x]
        } else {
            Seq::<A>::empty()
        }),
{
    reveal(Seq::filter);
    assert(s.push(x).drop_last() =~= s);
    assert(s.push(x).last() == x);
    if pred(x) {
        assert(s.push(x).filter(pred) =~= s.filter(pred) + seq![x]);
    } else {
        assert(s.push(x).filter(pred) =~= s.filter(pred) + Seq::<A>::empty());
    }
}

// --- comparing two strings ---

/// Character-wise equality test of two string slices.
pub fn str_eq(a: &str, b: &str) -> (r: bool)
    ensures
        r == (a@ == b@),
{
    let n = a.unicode_len();
    let m = b.unicode_len();
    if n != m {
        return false;
    }
    let mut i: usize = 0;
    while i < n
        invariant
            n == a@.len(),
            n == b@.len(),
            i <= n,
            forall|k: int| 0 <= k < i ==> a@[k] == b@[k],
        decreases n - i,
    {
        if a.get_char(i) != b.get_char(i) {
            return false;
        }
        i += 1;
    }
    proof {
        assert(a@ =~= b@);
    }
    true
}

// --- splitting into lines ---

/// Index of the first newline in `s`, or `s.len()` if there is none.
pub open spec fn first_nl(s: Seq<char>) -> nat
    decreases s.len(),
{
    if s.len() == 0 {
        0
    } else if s[0] == '\n' {
        0
    } else {
        1 + first_nl(s.subrange(1, s.len() as int))
    }
}

pub proof fn lemma_first_nl(s: Seq<char>)
    ensures
        first_nl(s) <= s.len(),
        forall|j: int| 0 <= j < first_nl(s) ==> s[j] != '\n',
        first_nl(s) < s.len() ==> s[first_nl(s) as int] == '\n',
    decreases s.len(),
{
    if s.len() == 0 {
    } else if s[0] == '\n' {
    } else {
        let t = s.subrange(1, s.len() as int);
        lemma_first_nl(t);
        assert forall|j: int| 0 <= j < first_nl(s) implies s[j] != '\n' by {
            if j > 0 {
                assert(t[j - 1] != '\n');
            }
        }
    }
}

/// `first_nl` is pinned down by its defining properties.
pub proof fn lemma_first_nl_is(s: Seq<char>, k: int)
    requires
        0 <= k <= s.len(),
        forall|j: int| 0 <= j < k ==> s[j] != '\n',
        k < s.len() ==> s[k] == '\n',
    ensures
        first_nl(s) == k,
    decreases s.len(),
{
    if s.len() == 0 {
    } else if s[0] == '\n' {
        assert(k == 0);
    } else {
        let t = s.subrange(1, s.len() as int);
        assert(k >= 1);
        assert forall|j: int| 0 <= j < k - 1 implies t[j] != '\n' by {
            assert(s[j + 1] != '\n');
        }
        lemma_first_nl_is(t, k - 1);
    }
}

/// A carriage return that stood directly before the newline is not part of
/// the line it ends.
pub open spec fn strip_cr(line: Seq<char>) -> Seq<char> {
    if line.len() > 0 && line[line.len() - 1] == '\r' {
        line.drop_last()
    } else {
        line
    }
}

/// The lines of a text, split on `'\n'`: the delimiter is not part of any
/// line, a carriage return directly before a newline is dropped with it,
/// and a trailing newline does not produce a spurious empty line.
pub open spec fn lines_of(s: Seq<char>) -> Seq<Seq<char>>
    decreases s.len(),
{
    if s.len() == 0 {
        Seq::empty()
    } else {
        let i = first_nl(s);
        if i >= s.len() {
            seq![s]
        } else {
            seq![strip_cr(s.subrange(0, i as int))] + lines_of(
                s.subrange(i as int + 1, s.len() as int),
            )
        }
    }
}

/// One splitting step: if `s[start..j]` is newline-free and `j` is either a
/// newline position or the end, the lines of `s[start..]` are that segment
/// followed by the lines of the rest.
pub proof fn lemma_lines_of_step(s: Seq<char>, start: int, j: int)
    requires
        0 <= start < s.len(),
        start <= j <= s.len(),
        forall|k: int| start <= k < j ==> s[k] != '\n',
        j < s.len() ==> s[j] == '\n',
    ensures
        lines_of(s.subrange(start, s.len() as int)) == (if j < s.len() {
            seq![strip_cr(s.subrange(start, j))] + lines_of(s.subrange(j + 1, s.len() as int))
        } else {
            seq![s.subrange(start, j)]
        }),
{
    let t = s.subrange(start, s.len() as int);
    assert forall|k: int| 0 <= k < j - start implies t[k] != '\n' by {
        assert(s[start + k] != '\n');
    }
    lemma_first_nl_is(t, j - start);
    if j < s.len() {
        assert(t.subrange(0, j - start) =~= s.subrange(start, j));
        assert(t.subrange(j - start + 1, t.len() as int) =~= s.subrange(j + 1, s.len() as int));
    } else {
        assert(t =~= s.subrange(start, j));
    }
}

/// A trailing newline produces no spurious empty final line: appending a
/// final newline to a text that does not already end in a line break leaves
/// its lines unchanged.
pub proof fn lemma_trailing_newline(s: Seq<char>)
    requires
        s.len() > 0,
        s[s.len() - 1] != '\n',
        s[s.len() - 1] != '\r',
    ensures
        lines_of(s.push('\n')) == lines_of(s),
    decreases s.len(),
{
    lemma_first_nl(s);
    let p = s.push('\n');
    let i = first_nl(s);
    if i >= s.len() {
        lemma_first_nl_is(p, s.len() as int);
        assert(p.subrange(0, s.len() as int) =~= s);
        assert(strip_cr(s) == s);
        assert(p.subrange(s.len() as int + 1, p.len() as int).len() == 0);
        assert(lines_of(p.subrange(s.len() as int + 1, p.len() as int)) == Seq::<Seq<
            char,
        >>::empty());
        assert(lines_of(p) =~= seq![s]);
    } else {
        assert forall|j: int| 0 <= j < i implies p[j] != '\n' by {
            assert(s[j] != '\n');
        }
        lemma_first_nl_is(p, i as int);
        let tail = s.subrange(i as int + 1, s.len() as int);
        assert(i + 1 < s.len());
        assert(tail.len() > 0);
        assert(tail[tail.len() - 1] == s[s.len() - 1]);
        lemma_trailing_newline(tail);
        assert(p.subrange(0, i as int) =~= s.subrange(0, i as int));
        assert(p.subrange(i as int + 1, p.len() as int) =~= tail.push('\n'));
    }
}

/// The views of a sequence of string slices.
pub open spec fn views_of(v: Seq<&str>) -> Seq<Seq<char>> {
    v.map_values(|l: &str| l@)
}

/// Splits `contents` into its lines, as borrowed slices, in order.
pub fn split_lines<'a>(contents: &'a str) -> (r: Vec<&'a str>)
    ensures
        views_of(r@) == lines_of(contents@),
{
    let n = contents.unicode_len();
    let mut r: Vec<&'a str> = Vec::new();
    let mut start: usize = 0;
    proof {
        assert(contents@.subrange(0, n as int) =~= contents@);
        assert(views_of(r@) + lines_of(contents@) =~= lines_of(contents@));
    }
    while start < n
        invariant
            n == contents@.len(),
            start <= n,
            lines_of(contents@) == views_of(r@) + lines_of(
                contents@.subrange(start as int, n as int),
            ),
        decreases n - start,
    {
        let mut j: usize = start;
        while j < n && contents.get_char(j) != '\n'
            invariant
                n == contents@.len(),
                start <= j <= n,
                forall|k: int| start <= k < j ==> contents@[k] != '\n',
            decreases n - j,
        {
            j += 1;
        }
        let mut end = j;
        if j < n && j > start && contents.get_char(j - 1) == '\r' {
            end = j - 1;
        }
        let line = contents.substring_char(start, end);
        let ghost r0 = r@;
        r.push(line);
        proof {
            lemma_lines_of_step(contents@, start as int, j as int);
            let seg = contents@.subrange(start as int, j as int);
            if j < n {
                if j > start && contents@[j - 1] == '\r' {
                    assert(seg.len() > 0 && seg[seg.len() - 1] == '\r');
                    assert(line@ =~= seg.drop_last());
                } else {
                    assert(line@ =~= seg);
                    if seg.len() > 0 {
                        assert(seg[seg.len() - 1] == contents@[j - 1]);
                    }
                }
                assert(line@ == strip_cr(seg));
            } else {
                assert(line@ =~= seg);
            }
            assert(views_of(r@) =~= views_of(r0).push(line@));
            let rest = if j < n {
                lines_of(contents@.subrange(j + 1, n as int))
            } else {
                Seq::<Seq<char>>::empty()
            };
            assert(views_of(r0).push(line@) + rest =~= views_of(r0) + (seq![line@] + rest));
            if j >= n {
                assert(lines_of(contents@.subrange(n as int, n as int)) == Seq::<Seq<
                    char,
                >>::empty()) by {
                    assert(contents@.subrange(n as int, n as int).len() == 0);
                }
            }
        }
        if j < n {
            start = j + 1;
        } else {
            start = n;
        }
    }
    proof {
        assert(contents@.subrange(start as int, n as int).len() == 0);
        assert(views_of(r@) + lines_of(contents@.subrange(start as int, n as int)) =~= views_of(
            r@,
        ));
    }
    r
}

// --- literal matching, executable ---

/// Does `pat` occur in `text` starting at position `i`?
fn match_at(text: &str, pat: &str, i: usize) -> (b: bool)
    requires
        i + pat@.len() <= text@.len(),
        text@.len() <= usize::MAX,
    ensures
        b == contains_at(text@, pat@, i as int),
{
    let m = pat.unicode_len();
    let mut j: usize = 0;
    while j < m
        invariant
            m == pat@.len(),
            i + m <= text@.len(),
            text@.len() <= usize::MAX,
            j <= m,
            forall|l: int| 0 <= l < j ==> text@[i + l] == pat@[l],
        decreases m - j,
    {
        if text.get_char(i + j) != pat.get_char(j) {
            proof {
                if contains_at(text@, pat@, i as int) {
                    assert(text@.subrange(i as int, i + pat@.len() as int)[j as int] == text@[i
                        + j]);
                }
            }
            return false;
        }
        j += 1;
    }
    proof {
        assert forall|l: int| 0 <= l < m implies text@.subrange(i as int, i + m as int)[l]
            == pat@[l] by {
            assert(text@[i + l] == pat@[l]);
        }
        assert(text@.subrange(i as int, i + pat@.len() as int) =~= pat@);
    }
    true
}

/// Does `pat` occur anywhere in `text`?  The empty pattern always does.
pub fn contains_substr(text: &str, pat: &str) -> (b: bool)
    ensures
        b == contains_seq(text@, pat@),
{
    let n = text.unicode_len();
    let m = pat.unicode_len();
    if m > n {
        proof {
            assert forall|i: int| !contains_at(text@, pat@, i) by {
                assert(pat@.len() > text@.len());
            }
        }
        return false;
    }
    if m == 0 {
        proof {
            assert(text@.subrange(0, 0) =~= pat@);
            assert(contains_at(text@, pat@, 0));
        }
        return true;
    }
    let limit = n - m;
    let mut i: usize = 0;
    while i <= limit
        invariant
            n == text@.len(),
            m == pat@.len(),
            1 <= m <= n,
            limit == n - m,
            i <= limit + 1,
            forall|k: int| 0 <= k < i ==> !contains_at(text@, pat@, k),
        decreases limit + 1 - i,
    {
        if match_at(text, pat, i) {
            return true;
        }
        i += 1;
    }
    proof {
        assert forall|k: int| !contains_at(text@, pat@, k) by {
            if 0 <= k <= limit {
                assert(!contains_at(text@, pat@, k));
            } else if k > limit {
                assert(k + pat@.len() > text@.len());
            }
        }
    }
    false
}

/// Whether `line` matches `query` in literal mode.  Beyond the exact
/// predicate, two facts callers lean on: an empty query matches every line,
/// and on ASCII inputs case-insensitive matching accepts every verbatim
/// occurrence.
pub fn line_contains(line: &str, query: &str, ignore_case: bool) -> (b: bool)
    ensures
        b == line_matches(line@, query@, ignore_case),
        query@.len() == 0 ==> b,
        ignore_case && is_ascii_chars(line@) && is_ascii_chars(query@) && contains_seq(
            line@,
            query@,
        ) ==> b,
{
    if ignore_case {
        let fl = to_lowercase(line);
        let fq = to_lowercase(query);
        let b = contains_substr(fl.as_str(), fq.as_str());
        proof {
            if query@.len() == 0 {
                assert(fl@.subrange(0, 0) =~= fq@);
                assert(contains_at(fl@, fq@, 0));
            }
            if is_ascii_chars(line@) && is_ascii_chars(query@) && contains_seq(line@, query@) {
                lemma_contains_lower(line@, query@);
            }
        }
        b
    } else {
        let b = contains_substr(line, query);
        proof {
            if query@.len() == 0 {
                assert(line@.subrange(0, 0) =~= query@);
                assert(contains_at(line@, query@, 0));
            }
        }
        b
    }
}

/// Every line of an ASCII text is itself ASCII.
pub proof fn lemma_lines_of_ascii(s: Seq<char>)
    requires
        is_ascii_chars(s),
    ensures
        forall|k: int|
            0 <= k < lines_of(s).len() ==> is_ascii_chars(#[trigger] lines_of(s)[k]),
    decreases s.len(),
{
    if s.len() == 0 {
    } else {
        let i = first_nl(s);
        if i >= s.len() {
        } else {
            let head = strip_cr(s.subrange(0, i as int));
            let rest = s.subrange(i as int + 1, s.len() as int);
            assert(is_ascii_chars(s.subrange(0, i as int)));
            assert(is_ascii_chars(head));
            assert(is_ascii_chars(rest));
            lemma_lines_of_ascii(rest);
            assert forall|k: int|
                0 <= k < lines_of(s).len() implies is_ascii_chars(
                #[trigger] lines_of(s)[k],
            ) by {
                if k > 0 {
                    assert(lines_of(s)[k] == lines_of(rest)[k - 1]);
                }
            }
        }
    }
}

} // verus!
