//! Character-level helpers shared by the parsers of this crate.
//!
//! Every function here is specified over `Seq<char>`, the view of a string.
//! The executable helpers work on a window `[lo, hi)` of a character vector
//! and return positions inside that window, so that callers can cut the
//! answer out of the string they started from.

use vstd::prelude::*;
use vstd::string::StrSliceExecFns;

verus! {

/// The characters of `s`, in order.
pub fn chars_of(s: &str) -> (out: Vec<char>)
    ensures
        out@ == s@,
{
    let mut out: Vec<char> = Vec::new();
    for c in it: s.chars()
        invariant
            out@ == it.seq().take(it.index()),
            it.seq() == s@,
    {
        out.push(c);
    }
    out
}

/// The substring of `s` between two character positions, as an owned string.
pub(crate) fn owned_range(s: &str, from: usize, to: usize) -> (out: String)
    requires
        from <= to <= s@.len(),
    ensures
        out@ == s@.subrange(from as int, to as int),
{
    s.substring_char(from, to).to_owned()
}

/// White space in the sense of the Unicode `White_Space` property.
pub open spec fn is_space(c: char) -> bool {
    let n = c as u32;
    ||| 0x09 <= n <= 0x0d
    ||| n == 0x20
    ||| n == 0x85
    ||| n == 0xa0
    ||| n == 0x1680
    ||| 0x2000 <= n <= 0x200a
    ||| n == 0x2028
    ||| n == 0x2029
    ||| n == 0x202f
    ||| n == 0x205f
    ||| n == 0x3000
}

/// Tests a character for white space.
pub fn char_is_space(c: char) -> (r: bool)
    ensures
        r == is_space(c),
{
    let n: u32 = c as u32;
    (0x09 <= n && n <= 0x0d) || n == 0x20 || n == 0x85 || n == 0xa0 || n == 0x1680 || (0x2000 <= n
        && n <= 0x200a) || n == 0x2028 || n == 0x2029 || n == 0x202f || n == 0x205f || n == 0x3000
}

/// `s` without its leading white space.
pub open spec fn skip_leading_space(s: Seq<char>) -> Seq<char>
    decreases s.len(),
{
    if s.len() > 0 && is_space(s[0]) {
        skip_leading_space(s.drop_first())
    } else {
        s
    }
}

/// `s` without its trailing white space.
pub open spec fn drop_trailing_space(s: Seq<char>) -> Seq<char>
    decreases s.len(),
{
    if s.len() > 0 && is_space(s.last()) {
        drop_trailing_space(s.drop_last())
    } else {
        s
    }
}

/// `s` without leading and trailing white space.
pub open spec fn trimmed(s: Seq<char>) -> Seq<char> {
    drop_trailing_space(skip_leading_space(s))
}

/// `s` without the run of `c` it starts with.
pub open spec fn skip_leading(s: Seq<char>, c: char) -> Seq<char>
    decreases s.len(),
{
    if s.len() > 0 && s[0] == c {
        skip_leading(s.drop_first(), c)
    } else {
        s
    }
}

/// `s` without the run of `c` it ends with.
pub open spec fn drop_trailing(s: Seq<char>, c: char) -> Seq<char>
    decreases s.len(),
{
    if s.len() > 0 && s.last() == c {
        drop_trailing(s.drop_last(), c)
    } else {
        s
    }
}

/// `pat` stands in `s` at position `i`.
pub open spec fn occurs_at(s: Seq<char>, pat: Seq<char>, i: int) -> bool {
    &&& 0 <= i
    &&& i + pat.len() <= s.len()
    &&& s.subrange(i, i + pat.len()) == pat
}

/// `s` begins with `pat`.
pub open spec fn has_prefix(s: Seq<char>, pat: Seq<char>) -> bool {
    occurs_at(s, pat, 0)
}

/// `s` ends with `pat`.
pub open spec fn has_suffix(s: Seq<char>, pat: Seq<char>) -> bool {
    occurs_at(s, pat, s.len() - pat.len())
}

/// `s` with every copy of `pat` at its end removed, one after the other.
pub open spec fn strip_suffixes(s: Seq<char>, pat: Seq<char>) -> Seq<char>
    decreases s.len(),
{
    if pat.len() > 0 && has_suffix(s, pat) {
        strip_suffixes(s.take(s.len() - pat.len()), pat)
    } else {
        s
    }
}

/// The first position at or after `from` where `pat` stands in `s`.
pub open spec fn find_from(s: Seq<char>, pat: Seq<char>, from: int) -> Option<int>
    decreases s.len() - from + 1,
{
    if from < 0 || from + pat.len() > s.len() {
        None
    } else if occurs_at(s, pat, from) {
        Some(from)
    } else {
        find_from(s, pat, from + 1)
    }
}

/// The first position where `pat` stands in `s`.
pub open spec fn first_occurrence(s: Seq<char>, pat: Seq<char>) -> Option<int> {
    find_from(s, pat, 0)
}

/// `pat` stands somewhere in `s`.
pub open spec fn contains_text(s: Seq<char>, pat: Seq<char>) -> bool {
    first_occurrence(s, pat) is Some
}

/// A position found by `find_from` holds the pattern, and no earlier one
/// at or after `from` does.
pub proof fn lemma_find_from(s: Seq<char>, pat: Seq<char>, from: int)
    requires
        0 <= from,
    ensures
        match find_from(s, pat, from) {
            Some(i) => from <= i && occurs_at(s, pat, i) && forall|j: int|
                from <= j < i ==> !occurs_at(s, pat, j),
            None => forall|j: int| from <= j ==> !occurs_at(s, pat, j),
        },
    decreases s.len() - from + 1,
{
    if from + pat.len() > s.len() {
    } else if occurs_at(s, pat, from) {
    } else {
        lemma_find_from(s, pat, from + 1);
    }
}

/// Tests whether `pat` stands at position `at` of the window `[lo, hi)`.
pub(crate) fn window_has_at(
    v: &Vec<char>,
    lo: usize,
    hi: usize,
    at: usize,
    pat: &Vec<char>,
) -> (r: bool)
    requires
        lo <= at <= hi <= v.len(),
    ensures
        r == occurs_at(v@.subrange(lo as int, hi as int), pat@, at - lo),
{
    let ghost w = v@.subrange(lo as int, hi as int);
    if pat.len() > hi - at {
        return false;
    }
    let mut k: usize = 0;
    while k < pat.len()
        invariant
            lo <= at <= hi <= v.len(),
            at + pat.len() <= hi,
            k <= pat.len(),
            w == v@.subrange(lo as int, hi as int),
            forall|j: int| 0 <= j < k ==> w[at - lo + j] == pat@[j],
        decreases pat.len() - k,
    {
        if v[at + k] != pat[k] {
            proof {
                assert(w.subrange(at - lo, at - lo + pat@.len())[k as int] == w[at - lo + k]);
            }
            return false;
        }
        k += 1;
    }
    proof {
        assert(w.subrange(at - lo, at - lo + pat@.len()) =~= pat@);
    }
    true
}

/// The start of the window `[lo, hi)` once its leading white space is gone.
pub(crate) fn skip_space_start(v: &Vec<char>, lo: usize, hi: usize) -> (r: usize)
    requires
        lo <= hi <= v.len(),
    ensures
        lo <= r <= hi,
        v@.subrange(r as int, hi as int) == skip_leading_space(v@.subrange(lo as int, hi as int)),
{
    let mut i: usize = lo;
    while i < hi && char_is_space(v[i])
        invariant
            lo <= i <= hi <= v.len(),
            skip_leading_space(v@.subrange(i as int, hi as int)) == skip_leading_space(
                v@.subrange(lo as int, hi as int),
            ),
        decreases hi - i,
    {
        proof {
            assert(v@.subrange(i as int, hi as int).drop_first() =~= v@.subrange(
                i + 1,
                hi as int,
            ));
        }
        i += 1;
    }
    i
}

/// The end of the window `[lo, hi)` once its trailing white space is gone.
pub(crate) fn drop_space_end(v: &Vec<char>, lo: usize, hi: usize) -> (r: usize)
    requires
        lo <= hi <= v.len(),
    ensures
        lo <= r <= hi,
        v@.subrange(lo as int, r as int) == drop_trailing_space(v@.subrange(lo as int, hi as int)),
{
    let mut i: usize = hi;
    while i > lo && char_is_space(v[i - 1])
        invariant
            lo <= i <= hi <= v.len(),
            drop_trailing_space(v@.subrange(lo as int, i as int)) == drop_trailing_space(
                v@.subrange(lo as int, hi as int),
            ),
        decreases i - lo,
    {
        proof {
            assert(v@.subrange(lo as int, i as int).drop_last() =~= v@.subrange(
                lo as int,
                i - 1,
            ));
        }
        i -= 1;
    }
    i
}

/// The window `[lo, hi)` without leading and trailing white space.
pub(crate) fn trim_window(v: &Vec<char>, lo: usize, hi: usize) -> (r: (usize, usize))
    requires
        lo <= hi <= v.len(),
    ensures
        lo <= r.0 <= r.1 <= hi,
        v@.subrange(r.0 as int, r.1 as int) == trimmed(v@.subrange(lo as int, hi as int)),
{
    let start = skip_space_start(v, lo, hi);
    let end = drop_space_end(v, start, hi);
    (start, end)
}

/// The start of the window `[lo, hi)` once the run of `c` it begins with is gone.
pub(crate) fn skip_char_start(v: &Vec<char>, lo: usize, hi: usize, c: char) -> (r: usize)
    requires
        lo <= hi <= v.len(),
    ensures
        lo <= r <= hi,
        v@.subrange(r as int, hi as int) == skip_leading(v@.subrange(lo as int, hi as int), c),
{
    let mut i: usize = lo;
    while i < hi && v[i] == c
        invariant
            lo <= i <= hi <= v.len(),
            skip_leading(v@.subrange(i as int, hi as int), c) == skip_leading(
                v@.subrange(lo as int, hi as int),
                c,
            ),
        decreases hi - i,
    {
        proof {
            assert(v@.subrange(i as int, hi as int).drop_first() =~= v@.subrange(
                i + 1,
                hi as int,
            ));
        }
        i += 1;
    }
    i
}

/// The end of the window `[lo, hi)` once the run of `c` it ends with is gone.
pub(crate) fn drop_char_end(v: &Vec<char>, lo: usize, hi: usize, c: char) -> (r: usize)
    requires
        lo <= hi <= v.len(),
    ensures
        lo <= r <= hi,
        v@.subrange(lo as int, r as int) == drop_trailing(v@.subrange(lo as int, hi as int), c),
{
    let mut i: usize = hi;
    while i > lo && v[i - 1] == c
        invariant
            lo <= i <= hi <= v.len(),
            drop_trailing(v@.subrange(lo as int, i as int), c) == drop_trailing(
                v@.subrange(lo as int, hi as int),
                c,
            ),
        decreases i - lo,
    {
        proof {
            assert(v@.subrange(lo as int, i as int).drop_last() =~= v@.subrange(
                lo as int,
                i - 1,
            ));
        }
        i -= 1;
    }
    i
}

/// The end of the window `[lo, hi)` once every copy of `pat` at its end is gone.
pub(crate) fn strip_suffixes_end(v: &Vec<char>, lo: usize, hi: usize, pat: &Vec<char>) -> (r: usize)
    requires
        lo <= hi <= v.len(),
    ensures
        lo <= r <= hi,
        v@.subrange(lo as int, r as int) == strip_suffixes(
            v@.subrange(lo as int, hi as int),
            pat@,
        ),
{
    let mut i: usize = hi;
    if pat.len() == 0 {
        return i;
    }
    while i - lo >= pat.len() && window_has_at(v, lo, i, i - pat.len(), pat)
        invariant
            lo <= i <= hi <= v.len(),
            pat.len() > 0,
            strip_suffixes(v@.subrange(lo as int, i as int), pat@) == strip_suffixes(
                v@.subrange(lo as int, hi as int),
                pat@,
            ),
        decreases i - lo,
    {
        proof {
            assert(v@.subrange(lo as int, i as int).take(i - lo - pat.len()) =~= v@.subrange(
                lo as int,
                i - pat.len(),
            ));
        }
        i -= pat.len();
    }
    i
}

/// The first position in the window `[lo, hi)` where `pat` stands, counted
/// from the start of the vector.
pub(crate) fn find_in_window(
    v: &Vec<char>,
    lo: usize,
    hi: usize,
    pat: &Vec<char>,
) -> (r: Option<usize>)
    requires
        lo <= hi <= v.len(),
    ensures
        match r {
            Some(at) => lo <= at && at + pat@.len() <= hi && first_occurrence(
                v@.subrange(lo as int, hi as int),
                pat@,
            ) == Some(at - lo),
            None => first_occurrence(v@.subrange(lo as int, hi as int), pat@) is None,
        },
{
    let ghost w = v@.subrange(lo as int, hi as int);
    let mut i: usize = lo;
    while hi - i >= pat.len()
        invariant
            lo <= i <= hi <= v.len(),
            w == v@.subrange(lo as int, hi as int),
            find_from(w, pat@, i - lo) == first_occurrence(w, pat@),
        decreases hi - i,
    {
        if window_has_at(v, lo, hi, i, pat) {
            return Some(i);
        }
        if i == hi {
            proof {
                assert(find_from(w, pat@, i - lo + 1) is None);
            }
            return None;
        }
        i += 1;
    }
    None
}

/// What `str::to_lowercase` makes of `s`: its lower-case form by the rules
/// of Unicode, which do not depend on a locale.
pub uninterp spec fn lowercased(s: Seq<char>) -> Seq<char>;

/// Calls `str::to_lowercase`. The result is the lower-case form named by
/// [`lowercased`].
#[verifier::external_body]
pub(crate) fn to_lowercase(s: &str) -> (lower: String)
    ensures
        lower@ == lowercased(s@),
{
    s.to_lowercase()
}

/// `a` comes before `b` in the order of strings: at the first position
/// where they differ `a` has the smaller character, or `a` ends there.
pub open spec fn text_less(a: Seq<char>, b: Seq<char>) -> bool
    decreases a.len(),
{
    if b.len() == 0 {
        false
    } else if a.len() == 0 {
        true
    } else if a[0] == b[0] {
        text_less(a.drop_first(), b.drop_first())
    } else {
        (a[0] as u32) < (b[0] as u32)
    }
}

/// No string comes before itself.
pub proof fn lemma_text_less_irreflexive(a: Seq<char>)
    ensures
        !text_less(a, a),
    decreases a.len(),
{
    if a.len() > 0 {
        lemma_text_less_irreflexive(a.drop_first());
    }
}

/// Of two different strings exactly one comes before the other.
pub proof fn lemma_text_less_total(a: Seq<char>, b: Seq<char>)
    ensures
        a != b ==> (text_less(a, b) <==> !text_less(b, a)),
        a == b ==> !text_less(a, b) && !text_less(b, a),
    decreases a.len(),
{
    if a == b {
        lemma_text_less_irreflexive(a);
    } else if a.len() == 0 || b.len() == 0 {
        if a.len() == 0 && b.len() == 0 {
            assert(a =~= b);
        }
    } else if a[0] == b[0] {
        if a.drop_first() == b.drop_first() {
            assert(a =~= seq![a[0]] + a.drop_first());
            assert(b =~= seq![b[0]] + b.drop_first());
        }
        lemma_text_less_total(a.drop_first(), b.drop_first());
    } else {
        vstd::utf8::char_u32_cast(a[0], a[0] as u32);
        vstd::utf8::char_u32_cast(b[0], b[0] as u32);
    }
}

/// The order of strings is transitive.
pub proof fn lemma_text_less_transitive(a: Seq<char>, b: Seq<char>, c: Seq<char>)
    requires
        text_less(a, b),
        text_less(b, c),
    ensures
        text_less(a, c),
    decreases a.len(),
{
    if a.len() > 0 && a[0] == b[0] && b[0] == c[0] {
        lemma_text_less_transitive(a.drop_first(), b.drop_first(), c.drop_first());
    }
}

/// Tests whether `a` comes before `b` in the order of strings.
pub fn text_before(a: &Vec<char>, b: &Vec<char>) -> (r: bool)
    ensures
        r == text_less(a@, b@),
{
    let mut i: usize = 0;
    assert(a@.skip(0) =~= a@ && b@.skip(0) =~= b@);
    while i < a.len() && i < b.len()
        invariant
            i <= a.len(),
            i <= b.len(),
            text_less(a@.skip(i as int), b@.skip(i as int)) == text_less(a@, b@),
        decreases a.len() - i,
    {
        proof {
            assert(a@.skip(i as int).drop_first() =~= a@.skip(i + 1));
            assert(b@.skip(i as int).drop_first() =~= b@.skip(i + 1));
        }
        if a[i] != b[i] {
            return (a[i] as u32) < (b[i] as u32);
        }
        i += 1;
    }
    i < b.len()
}

/// `s` without the run of characters other than white space it starts with.
pub open spec fn skip_token(s: Seq<char>) -> Seq<char>
    decreases s.len(),
{
    if s.len() > 0 && !is_space(s[0]) {
        skip_token(s.drop_first())
    } else {
        s
    }
}

/// The run of characters other than white space that `s` starts with.
pub open spec fn leading_token(s: Seq<char>) -> Seq<char> {
    s.take(s.len() - skip_token(s).len())
}

/// The start of the window `[lo, hi)` once the run of characters other
/// than white space it begins with is gone.
pub(crate) fn skip_token_start(v: &Vec<char>, lo: usize, hi: usize) -> (r: usize)
    requires
        lo <= hi <= v.len(),
    ensures
        lo <= r <= hi,
        v@.subrange(r as int, hi as int) == skip_token(v@.subrange(lo as int, hi as int)),
{
    let mut i: usize = lo;
    while i < hi && !char_is_space(v[i])
        invariant
            lo <= i <= hi <= v.len(),
            skip_token(v@.subrange(i as int, hi as int)) == skip_token(
                v@.subrange(lo as int, hi as int),
            ),
        decreases hi - i,
    {
        proof {
            assert(v@.subrange(i as int, hi as int).drop_first() =~= v@.subrange(
                i + 1,
                hi as int,
            ));
        }
        i += 1;
    }
    i
}

/// `s` without the run of characters outside `stops` it starts with.
pub open spec fn skip_until(s: Seq<char>, stops: Seq<char>) -> Seq<char>
    decreases s.len(),
{
    if s.len() > 0 && !stops.contains(s[0]) {
        skip_until(s.drop_first(), stops)
    } else {
        s
    }
}

/// The run of characters outside `stops` that `s` starts with.
pub open spec fn leading_until(s: Seq<char>, stops: Seq<char>) -> Seq<char> {
    s.take(s.len() - skip_until(s, stops).len())
}

/// Tests whether `c` is one of `stops`.
pub fn is_one_of(c: char, stops: &Vec<char>) -> (r: bool)
    ensures
        r == stops@.contains(c),
{
    let mut i: usize = 0;
    while i < stops.len()
        invariant
            i <= stops.len(),
            forall|k: int| 0 <= k < i ==> stops@[k] != c,
        decreases stops.len() - i,
    {
        if stops[i] == c {
            return true;
        }
        i += 1;
    }
    false
}

/// The run of characters outside `stops` ends at the first character of
/// `stops`: where none of the first `n` characters of `s` is one of `stops`
/// and the next one is, or `s` ends there, the run is those `n` characters.
pub proof fn lemma_skip_until(s: Seq<char>, stops: Seq<char>, n: int)
    requires
        0 <= n <= s.len(),
        forall|i: int| 0 <= i < n ==> !stops.contains(s[i]),
        n < s.len() ==> stops.contains(s[n]),
    ensures
        skip_until(s, stops) == s.skip(n),
        leading_until(s, stops) == s.take(n),
    decreases n,
{
    if n > 0 {
        let rest = s.drop_first();
        assert forall|i: int| 0 <= i < n - 1 implies !stops.contains(rest[i]) by {
            assert(rest[i] == s[i + 1]);
        }
        lemma_skip_until(rest, stops, n - 1);
        assert(rest.skip(n - 1) =~= s.skip(n));
    } else {
        assert(s.skip(0) =~= s);
    }
}

/// The start of the window `[lo, hi)` once the run of characters outside
/// `stops` it begins with is gone.
pub(crate) fn skip_until_start(
    v: &Vec<char>,
    lo: usize,
    hi: usize,
    stops: &Vec<char>,
) -> (r: usize)
    requires
        lo <= hi <= v.len(),
    ensures
        lo <= r <= hi,
        v@.subrange(r as int, hi as int) == skip_until(v@.subrange(lo as int, hi as int), stops@),
{
    let mut i: usize = lo;
    while i < hi && !is_one_of(v[i], stops)
        invariant
            lo <= i <= hi <= v.len(),
            forall|k: int| lo <= k < i ==> !stops@.contains(v@[k]),
        decreases hi - i,
    {
        i += 1;
    }
    proof {
        let w = v@.subrange(lo as int, hi as int);
        assert forall|k: int| 0 <= k < i - lo implies !stops@.contains(w[k]) by {
            assert(w[k] == v@[lo + k]);
        }
        lemma_skip_until(w, stops@, i - lo);
        assert(w.skip(i - lo) =~= v@.subrange(i as int, hi as int));
    }
    i
}

/// Tests whether the window `[lo, hi)` is the text `pat`.
pub(crate) fn window_is(v: &Vec<char>, lo: usize, hi: usize, pat: &Vec<char>) -> (r: bool)
    requires
        lo <= hi <= v.len(),
    ensures
        r == (v@.subrange(lo as int, hi as int) == pat@),
{
    if hi - lo != pat.len() {
        return false;
    }
    let r = window_has_at(v, lo, hi, lo, pat);
    proof {
        let w = v@.subrange(lo as int, hi as int);
        assert(w.subrange(0, pat@.len() as int) =~= w);
    }
    r
}

/// Each string comes before all that follow it.
pub open spec fn strictly_ascending(items: Seq<Seq<char>>) -> bool {
    forall|i: int, j: int| 0 <= i < j < items.len() ==> text_less(items[i], items[j])
}

/// The same strings occur in `a` and in `b`.
pub open spec fn same_strings(a: Seq<Seq<char>>, b: Seq<Seq<char>>) -> bool {
    forall|x: Seq<char>| a.contains(x) <==> b.contains(x)
}

/// A strictly ascending list is fixed by the strings that occur in it.
pub proof fn lemma_ascending_is_unique(a: Seq<Seq<char>>, b: Seq<Seq<char>>)
    requires
        strictly_ascending(a),
        strictly_ascending(b),
        same_strings(a, b),
    ensures
        a == b,
    decreases a.len(),
{
    if a.len() == 0 {
        if b.len() > 0 {
            assert(b.contains(b[0]));
            assert(a.contains(b[0]));
        }
        assert(a =~= b);
    } else {
        assert(a.contains(a[0]));
        assert(b.contains(a[0]));
        let j = choose|j: int| 0 <= j < b.len() && b[j] == a[0];
        assert(b.contains(b[0]));
        assert(a.contains(b[0]));
        let i = choose|i: int| 0 <= i < a.len() && a[i] == b[0];
        lemma_text_less_total(a[0], b[0]);
        if i != 0 && j != 0 {
            assert(text_less(a[0], a[i]));
            assert(text_less(b[0], b[j]));
        }
        if i != 0 && j == 0 {
            assert(text_less(a[0], a[i]));
            lemma_text_less_irreflexive(a[0]);
        }
        if i == 0 && j != 0 {
            assert(text_less(b[0], b[j]));
            lemma_text_less_irreflexive(b[0]);
        }
        assert(a[0] == b[0]);
        let ta = a.drop_first();
        let tb = b.drop_first();
        assert forall|x: Seq<char>| ta.contains(x) <==> tb.contains(x) by {
            if ta.contains(x) {
                let k = choose|k: int| 0 <= k < ta.len() && ta[k] == x;
                assert(a[k + 1] == x);
                assert(text_less(a[0], x));
                lemma_text_less_irreflexive(x);
                assert(b.contains(x));
                let m = choose|m: int| 0 <= m < b.len() && b[m] == x;
                assert(m != 0);
                assert(tb[m - 1] == x);
            }
            if tb.contains(x) {
                let k = choose|k: int| 0 <= k < tb.len() && tb[k] == x;
                assert(b[k + 1] == x);
                assert(text_less(b[0], x));
                lemma_text_less_irreflexive(x);
                assert(a.contains(x));
                let m = choose|m: int| 0 <= m < a.len() && a[m] == x;
                assert(m != 0);
                assert(ta[m - 1] == x);
            }
        }
        lemma_ascending_is_unique(ta, tb);
        assert(a =~= seq![a[0]] + ta);
        assert(b =~= seq![b[0]] + tb);
    }
}

/// Where `x` belongs in an ascending list: the position of the first
/// string that does not come before `x`, and whether that string is `x`.
fn ascending_place(sorted: &Vec<String>, x: &Vec<char>) -> (place: (usize, bool))
    ensures
        place.0 <= sorted.len(),
        forall|k: int| 0 <= k < place.0 ==> text_less(#[trigger] sorted.deep_view()[k], x@),
        place.0 < sorted.len() ==> !text_less(sorted.deep_view()[place.0 as int], x@),
        place.1 == (place.0 < sorted.len() && sorted.deep_view()[place.0 as int] == x@),
{
    let ghost models = sorted.deep_view();
    let mut at: usize = 0;
    while at < sorted.len()
        invariant
            at <= sorted.len(),
            models == sorted.deep_view(),
            forall|k: int| 0 <= k < at ==> text_less(#[trigger] models[k], x@),
        decreases sorted.len() - at,
    {
        let other = chars_of(sorted[at].as_str());
        assert(other@ == models[at as int]);
        if !text_before(&other, x) {
            let after = text_before(x, &other);
            proof {
                lemma_text_less_total(x@, models[at as int]);
            }
            return (at, !after);
        }
        at += 1;
    }
    (at, false)
}

/// The strings that occur in a list with `x` put in are those of the list
/// and `x`.
proof fn lemma_insert_contains(before: Seq<Seq<char>>, at: int, x: Seq<char>, y: Seq<char>)
    requires
        0 <= at <= before.len(),
    ensures
        before.insert(at, x).contains(y) <==> before.contains(y) || y == x,
{
    let after = before.insert(at, x);
    if after.contains(y) {
        let k = choose|k: int| 0 <= k < after.len() && after[k] == y;
        if k != at {
            let ok = if k < at { k } else { k - 1 };
            assert(before[ok] == y);
        }
    }
    if before.contains(y) {
        let m = choose|m: int| 0 <= m < before.len() && before[m] == y;
        let nm = if m < at { m } else { m + 1 };
        assert(after[nm] == y);
    }
    if y == x {
        assert(after[at] == y);
    }
}

/// The strings that occur in a list with `x` put behind it are those of the
/// list and `x`.
proof fn lemma_push_contains(taken: Seq<Seq<char>>, x: Seq<char>, y: Seq<char>)
    ensures
        taken.push(x).contains(y) <==> taken.contains(y) || y == x,
{
    let after = taken.push(x);
    if after.contains(y) {
        let k = choose|k: int| 0 <= k < after.len() && after[k] == y;
        if k < taken.len() {
            assert(taken[k] == y);
        }
    }
    if taken.contains(y) {
        let m = choose|m: int| 0 <= m < taken.len() && taken[m] == y;
        assert(after[m] == y);
    }
    if y == x {
        assert(after[taken.len() as int] == y);
    }
}

/// The strings of `items` in ascending order, each once.
pub fn sort_unique(items: Vec<String>) -> (sorted: Vec<String>)
    ensures
        strictly_ascending(sorted.deep_view()),
        same_strings(sorted.deep_view(), items.deep_view()),
{
    let ghost all = items.deep_view();
    let mut sorted: Vec<String> = Vec::new();
    assert(sorted.deep_view() =~= Seq::<Seq<char>>::empty());
    for item in it: items
        invariant
            it.seq() == items@,
            all == items.deep_view(),
            strictly_ascending(sorted.deep_view()),
            same_strings(sorted.deep_view(), all.take(it.index())),
    {
        let ghost before = sorted.deep_view();
        let ghost taken = all.take(it.index());
        let ghost x = item@;
        assert(all.take(it.index() + 1) =~= taken.push(x));
        let chars = chars_of(item.as_str());
        let (at, present) = ascending_place(&sorted, &chars);
        if present {
            proof {
                assert(before.contains(x));
                assert forall|y: Seq<char>| before.contains(y) <==> taken.push(x).contains(
                    y,
                ) by {
                    lemma_push_contains(taken, x, y);
                }
            }
        } else {
            sorted.insert(at, item);
            proof {
                let after = sorted.deep_view();
                assert(after =~= before.insert(at as int, x));
                assert forall|i: int, j: int| 0 <= i < j < after.len() implies text_less(
                    after[i],
                    after[j],
                ) by {
                    if j == at {
                        assert(after[i] == before[i]);
                    } else if i == at {
                        assert(after[j] == before[j - 1]);
                        lemma_text_less_total(x, before[at as int]);
                        if j - 1 > at {
                            lemma_text_less_transitive(x, before[at as int], before[j - 1]);
                        }
                    } else {
                        let oi = if i < at { i } else { i - 1 };
                        let oj = if j < at { j } else { j - 1 };
                        assert(after[i] == before[oi] && after[j] == before[oj]);
                    }
                }
                assert forall|y: Seq<char>| after.contains(y) <==> taken.push(x).contains(y) by {
                    lemma_insert_contains(before, at as int, x, y);
                    lemma_push_contains(taken, x, y);
                }
            }
        }
    }
    assert(all.take(all.len() as int) =~= all);
    sorted
}

} // verus!
