//! Character-level text handling shared by the parsers and renderers.
//!
//! Text is modelled as `Seq<char>`. The executable functions work on
//! `Vec<char>`, so that a position is a character index and every cut falls
//! between two characters.

use vstd::prelude::*;
use vstd::std_specs::iter::IteratorSpec;

verus! {

/// `String::push` appends one character.
pub assume_specification[ String::push ](s: &mut String, c: char)
    ensures
        final(s)@ == old(s)@.push(c),
;

/// The lower-case form of a text, as Unicode's case mapping gives it.
pub uninterp spec fn lowercase(s: Seq<char>) -> Seq<char>;

/// The upper-case form of a text, as Unicode's case mapping gives it.
pub uninterp spec fn uppercase(s: Seq<char>) -> Seq<char>;

/// `str::to_lowercase`: the result is the lower-case form of the argument.
/// Nothing else is claimed of it.
#[verifier::external_body]
pub(crate) fn to_lowercase(s: &str) -> (r: String)
    ensures
        r@ == lowercase(s@),
{
    s.to_lowercase()
}

/// `str::to_uppercase`: the result is the upper-case form of the argument.
/// Nothing else is claimed of it.
#[verifier::external_body]
pub(crate) fn to_uppercase(s: &str) -> (r: String)
    ensures
        r@ == uppercase(s@),
{
    s.to_uppercase()
}

/// Whether `c` is in Unicode's `White_Space` set.
pub open spec fn is_whitespace(c: char) -> bool {
    let n = c as u32;
    ||| 0x09 <= n <= 0x0D
    ||| n == 0x20
    ||| n == 0x85
    ||| n == 0xA0
    ||| n == 0x1680
    ||| 0x2000 <= n <= 0x200A
    ||| n == 0x2028
    ||| n == 0x2029
    ||| n == 0x202F
    ||| n == 0x205F
    ||| n == 0x3000
}

/// The predicate "is white space".
pub open spec fn space() -> spec_fn(char) -> bool {
    |c: char| is_whitespace(c)
}

/// The predicate "is not white space".
pub open spec fn non_space() -> spec_fn(char) -> bool {
    |c: char| !is_whitespace(c)
}

/// The predicate "is the character `sep`".
pub open spec fn same_as(sep: char) -> spec_fn(char) -> bool {
    |c: char| c == sep
}

/// The predicate "is any character but `sep`".
pub open spec fn other_than(sep: char) -> spec_fn(char) -> bool {
    |c: char| c != sep
}

/// Length of the longest prefix of `s` whose characters all satisfy `pred`.
pub open spec fn run_len(s: Seq<char>, pred: spec_fn(char) -> bool) -> int
    decreases s.len(),
{
    if s.len() == 0 || !pred(s[0]) {
        0
    } else {
        1 + run_len(s.drop_first(), pred)
    }
}

/// Length of the longest suffix of `s` whose characters all satisfy `pred`.
pub open spec fn tail_run_len(s: Seq<char>, pred: spec_fn(char) -> bool) -> int
    decreases s.len(),
{
    if s.len() == 0 || !pred(s.last()) {
        0
    } else {
        1 + tail_run_len(s.drop_last(), pred)
    }
}

/// A prefix of `n` matching characters that ends at the end of `s` or before
/// a character that does not match is the leading run.
pub proof fn lemma_run_len(s: Seq<char>, pred: spec_fn(char) -> bool, n: int)
    requires
        0 <= n <= s.len(),
        forall|j: int| 0 <= j < n ==> pred(#[trigger] s[j]),
        n < s.len() ==> !pred(s[n]),
    ensures
        run_len(s, pred) == n,
    decreases n,
{
    if n > 0 {
        let t = s.drop_first();
        assert forall|j: int| 0 <= j < n - 1 implies pred(#[trigger] t[j]) by {
            assert(t[j] == s[j + 1]);
        }
        if n - 1 < t.len() {
            assert(t[n - 1] == s[n]);
        }
        lemma_run_len(t, pred, n - 1);
    }
}

/// The mirror image of `lemma_run_len` for the trailing run.
pub proof fn lemma_tail_run_len(s: Seq<char>, pred: spec_fn(char) -> bool, n: int)
    requires
        0 <= n <= s.len(),
        forall|j: int| s.len() - n <= j < s.len() ==> pred(#[trigger] s[j]),
        n < s.len() ==> !pred(s[s.len() - n - 1]),
    ensures
        tail_run_len(s, pred) == n,
    decreases n,
{
    if n > 0 {
        let t = s.drop_last();
        assert forall|j: int| t.len() - (n - 1) <= j < t.len() implies pred(#[trigger] t[j]) by {
            assert(t[j] == s[j]);
        }
        if n - 1 < t.len() {
            assert(t[t.len() - (n - 1) - 1] == s[s.len() - n - 1]);
        }
        lemma_tail_run_len(t, pred, n - 1);
    }
}

/// The leading run lies within the sequence, all of its characters match,
/// and the character after it, if any, does not.
pub proof fn lemma_run_len_is_run(s: Seq<char>, pred: spec_fn(char) -> bool)
    ensures
        0 <= run_len(s, pred) <= s.len(),
        forall|j: int| 0 <= j < run_len(s, pred) ==> pred(#[trigger] s[j]),
        run_len(s, pred) < s.len() ==> !pred(s[run_len(s, pred)]),
    decreases s.len(),
{
    if s.len() == 0 || !pred(s[0]) {
    } else {
        let t = s.drop_first();
        lemma_run_len_is_run(t, pred);
        assert forall|j: int| 0 <= j < run_len(s, pred) implies pred(#[trigger] s[j]) by {
            if j > 0 {
                assert(s[j] == t[j - 1]);
            }
        }
        if run_len(s, pred) < s.len() {
            assert(s[run_len(s, pred)] == t[run_len(t, pred)]);
        }
    }
}

/// `s` without its leading white space.
pub open spec fn trimmed_start(s: Seq<char>) -> Seq<char> {
    s.skip(run_len(s, space()))
}

/// `s` without its trailing white space.
pub open spec fn trimmed_end(s: Seq<char>) -> Seq<char> {
    s.take(s.len() - tail_run_len(s, space()))
}

/// `s` without leading and trailing white space.
pub open spec fn trimmed(s: Seq<char>) -> Seq<char> {
    trimmed_end(trimmed_start(s))
}

/// The views of a sequence of character vectors.
pub open spec fn views(v: Seq<Vec<char>>) -> Seq<Seq<char>> {
    Seq::new(v.len(), |i: int| v[i]@)
}

/// The views of a sequence with one more vector are the views with one
/// more view.
pub proof fn lemma_views_push(v: Seq<Vec<char>>, x: Vec<char>)
    ensures
        views(v.push(x)) == views(v).push(x@),
{
    assert(views(v.push(x)) =~= views(v).push(x@));
}

/// Whether `c` is white space.
pub fn whitespace(c: char) -> (b: bool)
    ensures
        b == is_whitespace(c),
{
    let n: u32 = c as u32;
    (0x09 <= n && n <= 0x0D) || n == 0x20 || n == 0x85 || n == 0xA0 || n == 0x1680 || (0x2000 <= n
        && n <= 0x200A) || n == 0x2028 || n == 0x2029 || n == 0x202F || n == 0x205F || n == 0x3000
}

/// Whether `a` and `b` are the same text.
pub fn same(a: &str, b: &str) -> (r: bool)
    ensures
        r == (a@ == b@),
{
    let x = String::from_str(a);
    let y = String::from_str(b);
    x == y
}

/// The characters of `s`, in order.
pub fn to_chars(s: &str) -> (r: Vec<char>)
    ensures
        r@ == s@,
{
    let mut out: Vec<char> = Vec::new();
    for c in it: s.chars()
        invariant
            out@ == it.seq().take(it.index() as int),
            it.seq() == s@,
    {
        out.push(c);
    }
    out
}

/// The string made of the characters `chars`.
pub fn from_chars(chars: &Vec<char>) -> (r: String)
    ensures
        r@ == chars@,
{
    let mut out = String::new();
    let mut i: usize = 0;
    while i < chars.len()
        invariant
            i <= chars.len(),
            out@ == chars@.take(i as int),
        decreases chars.len() - i,
    {
        out.push(chars[i]);
        i += 1;
    }
    out
}

/// The characters of `s` from index `from` up to, not including, `to`.
pub fn slice(s: &Vec<char>, from: usize, to: usize) -> (r: Vec<char>)
    requires
        from <= to <= s.len(),
    ensures
        r@ == s@.subrange(from as int, to as int),
{
    let mut out: Vec<char> = Vec::new();
    let mut i: usize = from;
    while i < to
        invariant
            from <= i <= to <= s.len(),
            out@ == s@.subrange(from as int, i as int),
        decreases to - i,
    {
        out.push(s[i]);
        i += 1;
    }
    out
}

/// `s` without its leading white space.
pub fn trim_start(s: &Vec<char>) -> (r: Vec<char>)
    ensures
        r@ == trimmed_start(s@),
{
    let mut start: usize = 0;
    while start < s.len() && whitespace(s[start])
        invariant
            start <= s.len(),
            forall|j: int| 0 <= j < start ==> is_whitespace(#[trigger] s@[j]),
        decreases s.len() - start,
    {
        start += 1;
    }
    proof {
        lemma_run_len(s@, space(), start as int);
    }
    slice(s, start, s.len())
}

/// `s` without its trailing white space.
pub fn trim_end(s: &Vec<char>) -> (r: Vec<char>)
    ensures
        r@ == trimmed_end(s@),
{
    let mut end: usize = s.len();
    while end > 0 && whitespace(s[end - 1])
        invariant
            end <= s.len(),
            forall|j: int| end <= j < s.len() ==> is_whitespace(#[trigger] s@[j]),
        decreases end,
    {
        end -= 1;
    }
    proof {
        lemma_tail_run_len(s@, space(), s.len() - end);
    }
    slice(s, 0, end)
}

/// `s` without leading and trailing white space.
pub fn trim(s: &Vec<char>) -> (r: Vec<char>)
    ensures
        r@ == trimmed(s@),
{
    let t = trim_start(s);
    trim_end(&t)
}

/// `s` without one trailing carriage return.
pub open spec fn without_cr(s: Seq<char>) -> Seq<char> {
    if s.len() > 0 && s.last() == '\r' {
        s.drop_last()
    } else {
        s
    }
}

/// The lines of `s`: the text between line feeds, each without the line
/// feed that ends it and without a carriage return before that line feed.
/// Text after the last line feed is a line of its own if it is not empty,
/// and keeps a carriage return at its end.
pub open spec fn lines_of(s: Seq<char>) -> Seq<Seq<char>>
    decreases s.len(),
{
    let n = run_len(s, other_than('\n'));
    if s.len() == 0 {
        Seq::empty()
    } else if 0 <= n < s.len() {
        seq![without_cr(s.take(n))] + lines_of(s.skip(n + 1))
    } else {
        seq![s]
    }
}

/// The pieces of `s` between occurrences of `sep`: one more than there are
/// occurrences, empty pieces included.
pub open spec fn pieces(s: Seq<char>, sep: char) -> Seq<Seq<char>>
    decreases s.len(),
{
    let n = run_len(s, other_than(sep));
    if 0 <= n < s.len() {
        seq![s.take(n)] + pieces(s.skip(n + 1), sep)
    } else {
        seq![s]
    }
}

/// The words of `s`: its maximal runs of characters that are not white
/// space.
pub open spec fn words(s: Seq<char>) -> Seq<Seq<char>>
    decreases s.len(),
{
    let n = run_len(s, non_space());
    if s.len() == 0 {
        Seq::empty()
    } else if is_whitespace(s[0]) {
        words(s.drop_first())
    } else if 0 < n <= s.len() {
        seq![s.take(n)] + words(s.skip(n))
    } else {
        Seq::empty()
    }
}

/// An element pushed onto the first of two sequences may as well stand
/// at the front of the second.
pub proof fn lemma_append_front<A>(a: Seq<A>, x: A, b: Seq<A>)
    ensures
        a.push(x) + b == a + (seq![x] + b),
{
    assert(a.push(x) + b =~= a + (seq![x] + b));
}

/// The lines of `s`.
pub fn lines(s: &Vec<char>) -> (r: Vec<Vec<char>>)
    ensures
        views(r@) == lines_of(s@),
{
    let mut out: Vec<Vec<char>> = Vec::new();
    let mut start: usize = 0;
    let mut i: usize = 0;
    assert(s@.skip(0) =~= s@);
    assert(views(out@) + lines_of(s@) =~= lines_of(s@));
    while i < s.len()
        invariant
            start <= i <= s.len(),
            forall|j: int| start <= j < i ==> #[trigger] s@[j] != '\n',
            views(out@) + lines_of(s@.skip(start as int)) == lines_of(s@),
        decreases s.len() - i,
    {
        if s[i] == '\n' {
            let end = if i > start && s[i - 1] == '\r' {
                i - 1
            } else {
                i
            };
            let line = slice(s, start, end);
            proof {
                let rest = s@.skip(start as int);
                lemma_run_len(rest, other_than('\n'), i - start);
                assert(rest.skip(i - start + 1) =~= s@.skip(i + 1));
                assert(rest.take(i - start) =~= s@.subrange(start as int, i as int));
                assert(line@ =~= without_cr(rest.take(i - start)));
                lemma_views_push(out@, line);
                lemma_append_front(views(out@), line@, lines_of(s@.skip(i + 1)));
            }
            out.push(line);
            start = i + 1;
        }
        i += 1;
    }
    if start < s.len() {
        let line = slice(s, start, s.len());
        proof {
            let rest = s@.skip(start as int);
            lemma_run_len(rest, other_than('\n'), s.len() - start);
            assert(line@ =~= rest);
            lemma_views_push(out@, line);
            assert(views(out@).push(line@) =~= views(out@) + seq![rest]);
        }
        out.push(line);
    } else {
        assert(views(out@) + lines_of(s@.skip(start as int)) =~= views(out@));
    }
    out
}

/// The pieces of `s` between occurrences of `sep`.
pub fn split(s: &Vec<char>, sep: char) -> (r: Vec<Vec<char>>)
    ensures
        views(r@) == pieces(s@, sep),
{
    let mut out: Vec<Vec<char>> = Vec::new();
    let mut start: usize = 0;
    let mut i: usize = 0;
    assert(s@.skip(0) =~= s@);
    assert(views(out@) + pieces(s@, sep) =~= pieces(s@, sep));
    while i < s.len()
        invariant
            start <= i <= s.len(),
            forall|j: int| start <= j < i ==> #[trigger] s@[j] != sep,
            views(out@) + pieces(s@.skip(start as int), sep) == pieces(s@, sep),
        decreases s.len() - i,
    {
        if s[i] == sep {
            let piece = slice(s, start, i);
            proof {
                let rest = s@.skip(start as int);
                lemma_run_len(rest, other_than(sep), i - start);
                assert(rest.skip(i - start + 1) =~= s@.skip(i + 1));
                assert(piece@ =~= rest.take(i - start));
                lemma_views_push(out@, piece);
                lemma_append_front(views(out@), piece@, pieces(s@.skip(i + 1), sep));
            }
            out.push(piece);
            start = i + 1;
        }
        i += 1;
    }
    let piece = slice(s, start, s.len());
    proof {
        let rest = s@.skip(start as int);
        lemma_run_len(rest, other_than(sep), s.len() - start);
        assert(piece@ =~= rest);
        lemma_views_push(out@, piece);
        assert(views(out@).push(piece@) =~= views(out@) + seq![rest]);
    }
    out.push(piece);
    out
}

/// The words of `s`.
pub fn split_whitespace(s: &Vec<char>) -> (r: Vec<Vec<char>>)
    ensures
        views(r@) == words(s@),
{
    let mut out: Vec<Vec<char>> = Vec::new();
    let mut i: usize = 0;
    assert(s@.skip(0) =~= s@);
    assert(views(out@) + words(s@) =~= words(s@));
    while i < s.len()
        invariant
            i <= s.len(),
            views(out@) + words(s@.skip(i as int)) == words(s@),
        decreases s.len() - i,
    {
        if whitespace(s[i]) {
            assert(s@.skip(i as int).drop_first() =~= s@.skip(i + 1));
            i += 1;
        } else {
            let start = i;
            while i < s.len() && !whitespace(s[i])
                invariant
                    start <= i <= s.len(),
                    start < s.len(),
                    !is_whitespace(s@[start as int]),
                    forall|j: int| start <= j < i ==> !is_whitespace(#[trigger] s@[j]),
                decreases s.len() - i,
            {
                i += 1;
            }
            let word = slice(s, start, i);
            proof {
                let rest = s@.skip(start as int);
                lemma_run_len(rest, non_space(), i - start);
                assert(rest.skip(i - start) =~= s@.skip(i as int));
                assert(word@ =~= rest.take(i - start));
                lemma_views_push(out@, word);
                lemma_append_front(views(out@), word@, words(s@.skip(i as int)));
            }
            out.push(word);
        }
    }
    assert(views(out@) + words(s@.skip(i as int)) =~= views(out@));
    out
}

/// Whether `s` begins with `p`.
pub open spec fn has_prefix(s: Seq<char>, p: Seq<char>) -> bool {
    p.len() <= s.len() && s.take(p.len() as int) == p
}

/// Whether `s` ends with `p`.
pub open spec fn has_suffix(s: Seq<char>, p: Seq<char>) -> bool {
    p.len() <= s.len() && s.skip(s.len() - p.len()) == p
}

/// Whether `p` stands in `s` at index `i`.
pub open spec fn occurs_at(s: Seq<char>, p: Seq<char>, i: int) -> bool {
    0 <= i && i + p.len() <= s.len() && s.subrange(i, i + p.len()) == p
}

/// Whether `p` stands somewhere in `s`.
pub open spec fn contains(s: Seq<char>, p: Seq<char>) -> bool {
    exists|i: int| occurs_at(s, p, i)
}

/// Whether `i` is the first index at which `p` stands in `s`.
pub open spec fn first_occurrence(s: Seq<char>, p: Seq<char>, i: int) -> bool {
    occurs_at(s, p, i) && forall|j: int| 0 <= j < i ==> !occurs_at(s, p, j)
}

/// The first index at which `p` stands in `s`, where there is one.
pub open spec fn position(s: Seq<char>, p: Seq<char>) -> int {
    choose|i: int| first_occurrence(s, p, i)
}

/// There is at most one first occurrence.
pub proof fn lemma_position(s: Seq<char>, p: Seq<char>, i: int)
    requires
        first_occurrence(s, p, i),
    ensures
        position(s, p) == i,
        contains(s, p),
{
    let k = position(s, p);
    assert(first_occurrence(s, p, k));
    if k < i {
        assert(!occurs_at(s, p, k));
    }
    if i < k {
        assert(!occurs_at(s, p, i));
    }
}

/// `s` after `p` has been taken from its front as often as it begins with
/// `p`. An empty `p` takes nothing.
pub open spec fn without_prefixes(s: Seq<char>, p: Seq<char>) -> Seq<char>
    decreases s.len(),
{
    if p.len() > 0 && has_prefix(s, p) {
        without_prefixes(s.skip(p.len() as int), p)
    } else {
        s
    }
}

/// `s` after `p` has been taken from its end as often as it ends with `p`.
/// An empty `p` takes nothing.
pub open spec fn without_suffixes(s: Seq<char>, p: Seq<char>) -> Seq<char>
    decreases s.len(),
{
    if p.len() > 0 && has_suffix(s, p) {
        without_suffixes(s.take(s.len() - p.len()), p)
    } else {
        s
    }
}

/// `s` without the occurrences of `c` at its front.
pub open spec fn without_leading(s: Seq<char>, c: char) -> Seq<char> {
    s.skip(run_len(s, same_as(c)))
}

/// `s` without the occurrences of `c` at its end.
pub open spec fn without_trailing(s: Seq<char>, c: char) -> Seq<char> {
    s.take(s.len() - tail_run_len(s, same_as(c)))
}

/// `s` without the occurrences of `c` at its front and at its end.
pub open spec fn without_surrounding(s: Seq<char>, c: char) -> Seq<char> {
    without_trailing(without_leading(s, c), c)
}

/// Whether `p` stands in `s` at index `i`.
pub fn matches_at(s: &Vec<char>, p: &Vec<char>, i: usize) -> (b: bool)
    ensures
        b == occurs_at(s@, p@, i as int),
{
    if i > s.len() || p.len() > s.len() - i {
        return false;
    }
    let mut k: usize = 0;
    while k < p.len()
        invariant
            k <= p.len(),
            i + p.len() <= s.len(),
            forall|j: int| 0 <= j < k ==> #[trigger] s@[i + j] == p@[j],
        decreases p.len() - k,
    {
        if s[i + k] != p[k] {
            assert(s@.subrange(i as int, i + p.len())[k as int] != p@[k as int]);
            return false;
        }
        k += 1;
    }
    assert forall|j: int| 0 <= j < p@.len() implies s@.subrange(i as int, i + p.len())[j]
        == p@[j] by {
        assert(s@[i + j] == p@[j]);
    }
    assert(s@.subrange(i as int, i + p.len()) =~= p@);
    true
}

/// Whether `s` begins with `p`.
pub fn starts_with(s: &Vec<char>, p: &Vec<char>) -> (b: bool)
    ensures
        b == has_prefix(s@, p@),
{
    matches_at(s, p, 0)
}

/// Whether `s` ends with `p`.
pub fn ends_with(s: &Vec<char>, p: &Vec<char>) -> (b: bool)
    ensures
        b == has_suffix(s@, p@),
{
    if p.len() > s.len() {
        return false;
    }
    let b = matches_at(s, p, s.len() - p.len());
    assert(s@.skip(s.len() - p.len()) =~= s@.subrange(s.len() - p.len(), s.len() as int));
    b
}

/// The first index at which `p` stands in `s`.
pub fn find(s: &Vec<char>, p: &Vec<char>) -> (r: Option<usize>)
    ensures
        match r {
            Some(i) => first_occurrence(s@, p@, i as int),
            None => !contains(s@, p@),
        },
{
    let mut i: usize = 0;
    while i < s.len()
        invariant
            i <= s.len(),
            forall|j: int| 0 <= j < i ==> !occurs_at(s@, p@, j),
        decreases s.len() - i,
    {
        if matches_at(s, p, i) {
            return Some(i);
        }
        i += 1;
    }
    if matches_at(s, p, i) {
        return Some(i);
    }
    None
}

/// Whether `p` stands somewhere in `s`.
pub fn includes(s: &Vec<char>, p: &Vec<char>) -> (b: bool)
    ensures
        b == contains(s@, p@),
{
    find(s, p).is_some()
}

/// The first index at which `c` stands in `s`.
pub fn index_of(s: &Vec<char>, c: char) -> (r: Option<usize>)
    ensures
        match r {
            Some(i) => i == run_len(s@, other_than(c)) && i < s.len(),
            None => run_len(s@, other_than(c)) == s.len(),
        },
{
    let mut i: usize = 0;
    while i < s.len() && s[i] != c
        invariant
            i <= s.len(),
            forall|j: int| 0 <= j < i ==> #[trigger] s@[j] != c,
        decreases s.len() - i,
    {
        i += 1;
    }
    proof {
        lemma_run_len(s@, other_than(c), i as int);
    }
    if i < s.len() {
        Some(i)
    } else {
        None
    }
}

/// `s` after `p` has been taken from its front as often as it begins with
/// `p`.
pub fn trim_start_matches(s: &Vec<char>, p: &Vec<char>) -> (r: Vec<char>)
    ensures
        r@ == without_prefixes(s@, p@),
{
    let mut start: usize = 0;
    assert(s@.skip(0) =~= s@);
    while p.len() > 0 && matches_at(s, p, start)
        invariant
            start <= s.len(),
            without_prefixes(s@.skip(start as int), p@) == without_prefixes(s@, p@),
        decreases s.len() - start,
    {
        proof {
            let rest = s@.skip(start as int);
            assert(rest.take(p@.len() as int) =~= s@.subrange(start as int, start + p@.len()));
            assert(rest.skip(p@.len() as int) =~= s@.skip(start + p@.len()));
        }
        start += p.len();
    }
    proof {
        let rest = s@.skip(start as int);
        if p@.len() > 0 && p@.len() <= rest.len() {
            assert(rest.take(p@.len() as int) =~= s@.subrange(start as int, start + p@.len()));
        }
    }
    slice(s, start, s.len())
}

/// `s` after `p` has been taken from its end as often as it ends with `p`.
pub fn trim_end_matches(s: &Vec<char>, p: &Vec<char>) -> (r: Vec<char>)
    ensures
        r@ == without_suffixes(s@, p@),
{
    let mut end: usize = s.len();
    assert(s@.take(end as int) =~= s@);
    while p.len() > 0 && end >= p.len() && matches_at(s, p, end - p.len())
        invariant
            end <= s.len(),
            without_suffixes(s@.take(end as int), p@) == without_suffixes(s@, p@),
        decreases end,
    {
        proof {
            let rest = s@.take(end as int);
            assert(rest.skip(rest.len() - p@.len()) =~= s@.subrange(end - p@.len(), end as int));
            assert(rest.take(rest.len() - p@.len()) =~= s@.take(end - p@.len()));
        }
        end -= p.len();
    }
    proof {
        let rest = s@.take(end as int);
        if p@.len() > 0 && p@.len() <= rest.len() {
            assert(rest.skip(rest.len() - p@.len()) =~= s@.subrange(end - p@.len(), end as int));
        }
    }
    slice(s, 0, end)
}

/// `s` without the occurrences of `c` at its front.
pub fn trim_leading(s: &Vec<char>, c: char) -> (r: Vec<char>)
    ensures
        r@ == without_leading(s@, c),
{
    let mut start: usize = 0;
    while start < s.len() && s[start] == c
        invariant
            start <= s.len(),
            forall|j: int| 0 <= j < start ==> #[trigger] s@[j] == c,
        decreases s.len() - start,
    {
        start += 1;
    }
    proof {
        lemma_run_len(s@, same_as(c), start as int);
    }
    slice(s, start, s.len())
}

/// `s` without the occurrences of `c` at its end.
pub fn trim_trailing(s: &Vec<char>, c: char) -> (r: Vec<char>)
    ensures
        r@ == without_trailing(s@, c),
{
    let mut end: usize = s.len();
    while end > 0 && s[end - 1] == c
        invariant
            end <= s.len(),
            forall|j: int| end <= j < s.len() ==> #[trigger] s@[j] == c,
        decreases end,
    {
        end -= 1;
    }
    proof {
        lemma_tail_run_len(s@, same_as(c), s.len() - end);
    }
    slice(s, 0, end)
}

/// `s` without the occurrences of `c` at its front and at its end.
pub fn trim_matches(s: &Vec<char>, c: char) -> (r: Vec<char>)
    ensures
        r@ == without_surrounding(s@, c),
{
    let t = trim_leading(s, c);
    trim_trailing(&t, c)
}

/// `s` with each occurrence of `c` replaced by `with`.
pub open spec fn replaced(s: Seq<char>, c: char, with: Seq<char>) -> Seq<char>
    decreases s.len(),
{
    if s.len() == 0 {
        Seq::empty()
    } else {
        replaced(s.drop_last(), c, with) + if s.last() == c {
            with
        } else {
            seq![s.last()]
        }
    }
}

/// `s` with each occurrence of `c` replaced by `with`.
pub fn replace(s: &str, c: char, with: &str) -> (r: String)
    ensures
        r@ == replaced(s@, c, with@),
{
    let chars = to_chars(s);
    let mut out = String::new();
    let mut i: usize = 0;
    assert(chars@.take(0) =~= Seq::<char>::empty());
    while i < chars.len()
        invariant
            i <= chars.len(),
            chars@ == s@,
            out@ == replaced(chars@.take(i as int), c, with@),
        decreases chars.len() - i,
    {
        proof {
            assert(chars@.take(i + 1).drop_last() =~= chars@.take(i as int));
        }
        if chars[i] == c {
            out.append(with);
        } else {
            out.push(chars[i]);
            assert(out@ =~= replaced(chars@.take(i as int), c, with@) + seq![chars@[i as int]]);
        }
        i += 1;
    }
    assert(chars@.take(chars.len() as int) =~= chars@);
    out
}

/// `label` taken from the front of `line` as often as it stands there, and
/// the rest without the white space around it.
pub open spec fn after_label(line: Seq<char>, label: Seq<char>) -> Seq<char> {
    trimmed(without_prefixes(line, label))
}

/// What follows `label` in `line`, trimmed.
pub fn strip_label(line: &Vec<char>, label: &Vec<char>) -> (r: Vec<char>)
    ensures
        r@ == after_label(line@, label@),
{
    let rest = trim_start_matches(line, label);
    trim(&rest)
}

/// Whether `s` is the text `lit`.
pub fn equals(s: &Vec<char>, lit: &str) -> (b: bool)
    ensures
        b == (s@ == lit@),
{
    let p = to_chars(lit);
    if s.len() != p.len() {
        return false;
    }
    let b = matches_at(s, &p, 0);
    assert(s@.subrange(0, s@.len() as int) =~= s@);
    b
}

/// There is always a first piece.
pub proof fn lemma_pieces_nonempty(s: Seq<char>, sep: char)
    ensures
        pieces(s, sep).len() >= 1,
{
}

/// Appends the characters `chars` to `out`.
pub fn push_chars(out: &mut String, chars: &Vec<char>)
    ensures
        final(out)@ == old(out)@ + chars@,
{
    let mut i: usize = 0;
    assert(out@ =~= old(out)@ + chars@.take(0));
    while i < chars.len()
        invariant
            i <= chars.len(),
            out@ == old(out)@ + chars@.take(i as int),
        decreases chars.len() - i,
    {
        out.push(chars[i]);
        assert(chars@.take(i + 1) =~= chars@.take(i as int).push(chars@[i as int]));
        assert(out@ =~= old(out)@ + chars@.take(i + 1));
        i += 1;
    }
    assert(chars@.take(i as int) =~= chars@);
}

/// The texts `ls` in order, with `sep` between each two.
pub open spec fn joined(ls: Seq<Seq<char>>, sep: Seq<char>) -> Seq<char>
    decreases ls.len(),
{
    if ls.len() == 0 {
        Seq::empty()
    } else if ls.len() == 1 {
        ls[0]
    } else {
        joined(ls.drop_last(), sep) + sep + ls.last()
    }
}

/// The texts `ls` in order, with `sep` between each two.
pub fn join(ls: &Vec<Vec<char>>, sep: &str) -> (r: String)
    ensures
        r@ == joined(views(ls@), sep@),
{
    let mut out = String::new();
    let mut i: usize = 0;
    assert(views(ls@).take(0) =~= Seq::<Seq<char>>::empty());
    while i < ls.len()
        invariant
            i <= ls.len(),
            out@ == joined(views(ls@).take(i as int), sep@),
        decreases ls.len() - i,
    {
        assert(views(ls@).take(i + 1).drop_last() =~= views(ls@).take(i as int));
        assert(views(ls@).take(i + 1).last() == ls@[i as int]@);
        if i > 0 {
            out.append(sep);
        } else {
            assert(Seq::<char>::empty() + ls@[i as int]@ =~= ls@[i as int]@);
        }
        push_chars(&mut out, &ls[i]);
        i += 1;
    }
    assert(views(ls@).take(i as int) =~= views(ls@));
    out
}

/// The trailing run lies within the sequence, all of its characters match,
/// and the character before it, if any, does not.
pub proof fn lemma_tail_run_len_is_run(s: Seq<char>, pred: spec_fn(char) -> bool)
    ensures
        0 <= tail_run_len(s, pred) <= s.len(),
        forall|j: int| s.len() - tail_run_len(s, pred) <= j < s.len() ==> pred(#[trigger] s[j]),
        tail_run_len(s, pred) < s.len() ==> !pred(s[s.len() - tail_run_len(s, pred) - 1]),
    decreases s.len(),
{
    if s.len() == 0 || !pred(s.last()) {
    } else {
        let t = s.drop_last();
        lemma_tail_run_len_is_run(t, pred);
        assert forall|j: int| s.len() - tail_run_len(s, pred) <= j < s.len() implies pred(
            #[trigger] s[j],
        ) by {
            if j < s.len() - 1 {
                assert(s[j] == t[j]);
            }
        }
        if tail_run_len(s, pred) < s.len() {
            assert(s[s.len() - tail_run_len(s, pred) - 1] == t[t.len() - tail_run_len(t, pred)
                - 1]);
        }
    }
}

/// Trimming what is trimmed changes nothing.
pub proof fn lemma_trimmed_is_trimmed(s: Seq<char>)
    ensures
        trimmed(trimmed(s)) == trimmed(s),
        trimmed(s).len() > 0 ==> !is_whitespace(trimmed(s).first()) && !is_whitespace(
            trimmed(s).last(),
        ),
{
    lemma_run_len_is_run(s, space());
    let u = trimmed_start(s);
    lemma_tail_run_len_is_run(u, space());
    let t = trimmed(s);
    if t.len() > 0 {
        assert(t[0] == u[0]);
        assert(u[0] == s[run_len(s, space())]);
        assert(t.last() == u[u.len() - tail_run_len(u, space()) - 1]);
        assert(!space()(t[0]));
        assert(!space()(t.last()));
    }
    assert(run_len(t, space()) == 0);
    assert(tail_run_len(t, space()) == 0);
    assert(t.skip(0) =~= t);
    assert(t.take(t.len() as int) =~= t);
}

/// A text in front of one or more texts is joined to them by one more
/// separator.
pub proof fn lemma_joined_front(x: Seq<char>, ls: Seq<Seq<char>>, sep: Seq<char>)
    requires
        ls.len() >= 1,
    ensures
        joined(seq![x] + ls, sep) == x + sep + joined(ls, sep),
    decreases ls.len(),
{
    let all = seq![x] + ls;
    assert(all.last() == ls.last());
    if ls.len() == 1 {
        assert(all.drop_last() =~= seq![x]);
        assert(joined(all, sep) == joined(seq![x], sep) + sep + ls.last());
        assert(joined(seq![x], sep) == x);
        assert(joined(ls, sep) == ls[0]);
    } else {
        assert(all.drop_last() =~= seq![x] + ls.drop_last());
        lemma_joined_front(x, ls.drop_last(), sep);
        assert(x + sep + joined(ls.drop_last(), sep) + sep + ls.last() =~= x + sep + (joined(
            ls.drop_last(),
            sep,
        ) + sep + ls.last()));
    }
}

/// The pieces of a text, joined by the separator, are the text, and no
/// piece holds the separator.
pub proof fn lemma_pieces_rejoin(s: Seq<char>, sep: char)
    ensures
        joined(pieces(s, sep), seq![sep]) == s,
        forall|k: int, j: int|
            0 <= k < pieces(s, sep).len() && 0 <= j < pieces(s, sep)[k].len() ==> (
            #[trigger] pieces(s, sep)[k][j]) != sep,
    decreases s.len(),
{
    lemma_run_len_is_run(s, other_than(sep));
    let n = run_len(s, other_than(sep));
    if 0 <= n < s.len() {
        let rest = s.skip(n + 1);
        lemma_pieces_rejoin(rest, sep);
        lemma_pieces_nonempty(rest, sep);
        lemma_joined_front(s.take(n), pieces(rest, sep), seq![sep]);
        assert(s[n] == sep);
        assert(s.take(n) + seq![sep] + rest =~= s);
        let ps = pieces(s, sep);
        assert forall|k: int, j: int| 0 <= k < ps.len() && 0 <= j < ps[k].len() implies (
        #[trigger] ps[k][j]) != sep by {
            if k == 0 {
                assert(ps[0] == s.take(n));
                assert(other_than(sep)(s[j]));
            } else {
                assert(ps[k] == pieces(rest, sep)[k - 1]);
            }
        }
    } else {
        assert(n == s.len());
        let ps = pieces(s, sep);
        assert(ps =~= seq![s]);
        assert forall|k: int, j: int| 0 <= k < ps.len() && 0 <= j < ps[k].len() implies (
        #[trigger] ps[k][j]) != sep by {
            assert(other_than(sep)(s[j]));
        }
    }
}

/// No word is empty, and no word holds white space.
pub proof fn lemma_words_are_words(s: Seq<char>)
    ensures
        forall|k: int| 0 <= k < words(s).len() ==> (#[trigger] words(s)[k]).len() > 0,
        forall|k: int, j: int|
            0 <= k < words(s).len() && 0 <= j < words(s)[k].len() ==> !is_whitespace(
                #[trigger] words(s)[k][j],
            ),
    decreases s.len(),
{
    if s.len() == 0 {
        assert(words(s) =~= Seq::<Seq<char>>::empty());
    } else if is_whitespace(s[0]) {
        lemma_words_are_words(s.drop_first());
        assert(words(s) == words(s.drop_first()));
    } else {
        lemma_run_len_is_run(s, non_space());
        let n = run_len(s, non_space());
        assert(non_space()(s[0]));
        assert(n > 0);
        let rest = s.skip(n);
        lemma_words_are_words(rest);
        let ws = words(s);
        assert(ws =~= seq![s.take(n)] + words(rest));
        assert forall|k: int| 0 <= k < ws.len() implies (#[trigger] ws[k]).len() > 0 by {
            if k > 0 {
                assert(ws[k] == words(rest)[k - 1]);
            }
        }
        assert forall|k: int, j: int| 0 <= k < ws.len() && 0 <= j < ws[k].len() implies !is_whitespace(
            #[trigger] ws[k][j],
        ) by {
            if k == 0 {
                assert(non_space()(s[j]));
            } else {
                assert(ws[k] == words(rest)[k - 1]);
            }
        }
    }
}

/// No line holds a line feed.
pub proof fn lemma_lines_hold_no_line_feed(s: Seq<char>)
    ensures
        forall|k: int, j: int|
            0 <= k < lines_of(s).len() && 0 <= j < lines_of(s)[k].len() ==> (
            #[trigger] lines_of(s)[k][j]) != '\n',
    decreases s.len(),
{
    lemma_run_len_is_run(s, other_than('\n'));
    let n = run_len(s, other_than('\n'));
    let ls = lines_of(s);
    if s.len() == 0 {
    } else if 0 <= n < s.len() {
        let rest = s.skip(n + 1);
        lemma_lines_hold_no_line_feed(rest);
        assert(ls =~= seq![without_cr(s.take(n))] + lines_of(rest));
        assert forall|k: int, j: int| 0 <= k < ls.len() && 0 <= j < ls[k].len() implies (
        #[trigger] ls[k][j]) != '\n' by {
            if k == 0 {
                assert(ls[0][j] == s[j]);
                assert(other_than('\n')(s[j]));
            } else {
                assert(ls[k] == lines_of(rest)[k - 1]);
            }
        }
    } else {
        assert(ls =~= seq![s]);
        assert forall|k: int, j: int| 0 <= k < ls.len() && 0 <= j < ls[k].len() implies (
        #[trigger] ls[k][j]) != '\n' by {
            assert(other_than('\n')(s[j]));
        }
    }
}

} // verus!
