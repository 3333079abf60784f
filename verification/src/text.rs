//! Character-level helpers shared by the extractors and the classifier.
//!
//! Text is modelled as `Seq<char>`, the view of `str` and `String`. The
//! executable functions work on a `Vec<char>` taken once from the input, so
//! that positions can be indexed in constant time.

use vstd::prelude::*;

verus! {

/// Whether `c` has the Unicode `White_Space` property.
pub open spec fn is_whitespace(c: char) -> bool {
    let n = c as u32;
    ||| 0x09 <= n <= 0x0D
    ||| n == 0x20
    ||| n == 0x85
    ||| n == 0xA0
    ||| n == 0x1680
    ||| 0x2000 <= n <= 0x200A
    ||| n == 0x2028
    ||| n == 0x2029
    ||| n == 0x202F
    ||| n == 0x205F
    ||| n == 0x3000
}

/// The number of whitespace characters at the start of `s`.
pub open spec fn leading_whitespace(s: Seq<char>) -> nat
    decreases s.len(),
{
    if s.len() > 0 && is_whitespace(s[0]) {
        1 + leading_whitespace(s.skip(1))
    } else {
        0
    }
}

/// The number of whitespace characters at the end of `s`.
pub open spec fn trailing_whitespace(s: Seq<char>) -> nat
    decreases s.len(),
{
    if s.len() > 0 && is_whitespace(s.last()) {
        1 + trailing_whitespace(s.drop_last())
    } else {
        0
    }
}

/// `s` without its leading whitespace.
pub open spec fn trim_start(s: Seq<char>) -> Seq<char> {
    s.skip(leading_whitespace(s) as int)
}

/// `s` without its leading and trailing whitespace.
pub open spec fn trim(s: Seq<char>) -> Seq<char> {
    let t = trim_start(s);
    t.take(t.len() - trailing_whitespace(t))
}

/// Whether `needle` stands in `hay` at position `i`.
pub open spec fn occurs_at(hay: Seq<char>, needle: Seq<char>, i: int) -> bool {
    &&& 0 <= i
    &&& i + needle.len() <= hay.len()
    &&& hay.subrange(i, i + needle.len()) == needle
}

/// Whether `needle` stands anywhere in `hay`.
pub open spec fn contains(hay: Seq<char>, needle: Seq<char>) -> bool {
    exists|i: int| occurs_at(hay, needle, i)
}

/// Whether `i` is the least position at which `needle` stands in `hay`.
pub open spec fn is_first_occurrence(hay: Seq<char>, needle: Seq<char>, i: int) -> bool {
    &&& occurs_at(hay, needle, i)
    &&& forall|j: int| 0 <= j < i ==> !occurs_at(hay, needle, j)
}

/// The least position at which `needle` stands in `hay`, if there is one.
pub open spec fn first_occurrence(hay: Seq<char>, needle: Seq<char>) -> Option<int> {
    if contains(hay, needle) {
        Some(choose|i: int| is_first_occurrence(hay, needle, i))
    } else {
        None
    }
}

/// Whether `s` begins with `prefix`.
pub open spec fn starts_with(s: Seq<char>, prefix: Seq<char>) -> bool {
    occurs_at(s, prefix, 0)
}

/// A count `n` with whitespace before it and none at it is the leading
/// whitespace count.
pub proof fn lemma_leading_whitespace(s: Seq<char>, n: int)
    requires
        0 <= n <= s.len(),
        forall|i: int| 0 <= i < n ==> is_whitespace(#[trigger] s[i]),
        n == s.len() || !is_whitespace(s[n]),
    ensures
        leading_whitespace(s) == n,
    decreases n,
{
    if n > 0 {
        let t = s.skip(1);
        assert forall|i: int| 0 <= i < n - 1 implies is_whitespace(#[trigger] t[i]) by {
            assert(t[i] == s[i + 1]);
        }
        lemma_leading_whitespace(t, n - 1);
    }
}

/// The leading whitespace count has whitespace before it and none at it.
pub proof fn lemma_leading_whitespace_bounds(s: Seq<char>)
    ensures
        leading_whitespace(s) <= s.len(),
        forall|i: int| 0 <= i < leading_whitespace(s) ==> is_whitespace(#[trigger] s[i]),
        leading_whitespace(s) == s.len() || !is_whitespace(s[leading_whitespace(s) as int]),
    decreases s.len(),
{
    if s.len() > 0 && is_whitespace(s[0]) {
        let t = s.skip(1);
        lemma_leading_whitespace_bounds(t);
        assert forall|i: int| 0 <= i < leading_whitespace(s) implies is_whitespace(
            #[trigger] s[i],
        ) by {
            if i > 0 {
                assert(t[i - 1] == s[i]);
            }
        }
        if leading_whitespace(s) < s.len() {
            assert(t[leading_whitespace(t) as int] == s[leading_whitespace(s) as int]);
        }
    }
}

/// A count `n` with whitespace after `len - n` and none just before is the
/// trailing whitespace count.
pub proof fn lemma_trailing_whitespace(s: Seq<char>, n: int)
    requires
        0 <= n <= s.len(),
        forall|i: int| s.len() - n <= i < s.len() ==> is_whitespace(#[trigger] s[i]),
        n == s.len() || !is_whitespace(s[s.len() - n - 1]),
    ensures
        trailing_whitespace(s) == n,
    decreases n,
{
    if n > 0 {
        let t = s.drop_last();
        assert forall|i: int| t.len() - (n - 1) <= i < t.len() implies is_whitespace(
            #[trigger] t[i],
        ) by {
            assert(t[i] == s[i]);
        }
        lemma_trailing_whitespace(t, n - 1);
    }
}

/// The trailing whitespace count is no more than the length.
pub proof fn lemma_trailing_whitespace_bounds(s: Seq<char>)
    ensures
        trailing_whitespace(s) <= s.len(),
    decreases s.len(),
{
    if s.len() > 0 && is_whitespace(s.last()) {
        lemma_trailing_whitespace_bounds(s.drop_last());
    }
}

/// The least position of an occurrence is the first occurrence.
pub proof fn lemma_first_occurrence(hay: Seq<char>, needle: Seq<char>, i: int)
    requires
        is_first_occurrence(hay, needle, i),
    ensures
        first_occurrence(hay, needle) == Some(i),
{
    let k = choose|k: int| is_first_occurrence(hay, needle, k);
    assert(is_first_occurrence(hay, needle, k));
    if k < i {
        assert(!occurs_at(hay, needle, k));
    }
    if i < k {
        assert(!occurs_at(hay, needle, i));
    }
}

/// Where `needle` stands nowhere in `hay`, there is no first occurrence.
pub proof fn lemma_no_occurrence(hay: Seq<char>, needle: Seq<char>)
    requires
        forall|j: int| 0 <= j ==> !occurs_at(hay, needle, j),
    ensures
        first_occurrence(hay, needle) is None,
{
}

/// What `first_occurrence` returns is the least position of an occurrence.
pub proof fn lemma_first_occurrence_is_least(hay: Seq<char>, needle: Seq<char>)
    ensures
        match first_occurrence(hay, needle) {
            Some(i) => is_first_occurrence(hay, needle, i),
            None => forall|j: int| !occurs_at(hay, needle, j),
        },
{
    if contains(hay, needle) {
        let w = choose|i: int| occurs_at(hay, needle, i);
        lemma_least_occurrence_exists(hay, needle, w);
    }
}

/// Below any occurrence there is a least one.
proof fn lemma_least_occurrence_exists(hay: Seq<char>, needle: Seq<char>, w: int)
    requires
        occurs_at(hay, needle, w),
    ensures
        exists|i: int| is_first_occurrence(hay, needle, i),
    decreases w,
{
    if exists|j: int| 0 <= j < w && occurs_at(hay, needle, j) {
        let j = choose|j: int| 0 <= j < w && occurs_at(hay, needle, j);
        lemma_least_occurrence_exists(hay, needle, j);
    } else {
        assert(is_first_occurrence(hay, needle, w));
    }
}

/// An occurrence in `hay.skip(from)` is an occurrence in `hay`, shifted by
/// `from`.
pub proof fn lemma_occurs_at_skip(hay: Seq<char>, needle: Seq<char>, from: int, k: int)
    requires
        0 <= from <= hay.len(),
        0 <= k,
    ensures
        occurs_at(hay.skip(from), needle, k) <==> occurs_at(hay, needle, from + k),
{
    if k + needle.len() <= hay.len() - from {
        assert(hay.skip(from).subrange(k, k + needle.len()) =~= hay.subrange(
            from + k,
            from + k + needle.len(),
        ));
    }
}

/// The characters of `s`, in order.
pub fn chars_of(s: &str) -> (out: Vec<char>)
    ensures
        out@ == s@,
{
    let mut out: Vec<char> = Vec::new();
    for c in it: s.chars()
        invariant
            out@ == it.seq().take(it.index() as int),
            it.seq() == s@,
    {
        out.push(c);
    }
    out
}

/// Tests a character for the Unicode `White_Space` property.
pub fn is_whitespace_char(c: char) -> (r: bool)
    ensures
        r == is_whitespace(c),
{
    let n: u32 = c as u32;
    (0x09 <= n && n <= 0x0D) || n == 0x20 || n == 0x85 || n == 0xA0 || n == 0x1680 || (0x2000
        <= n && n <= 0x200A) || n == 0x2028 || n == 0x2029 || n == 0x202F || n == 0x205F || n
        == 0x3000
}

/// The position of the first character of `text[from..to]` that is not
/// whitespace, or `to`.
pub(crate) fn skip_whitespace(text: &Vec<char>, from: usize, to: usize) -> (r: usize)
    requires
        from <= to <= text.len(),
    ensures
        r == from + leading_whitespace(text@.subrange(from as int, to as int)),
        from <= r <= to,
{
    let mut i: usize = from;
    while i < to && is_whitespace_char(text[i])
        invariant
            from <= i <= to <= text.len(),
            forall|j: int| from <= j < i ==> is_whitespace(#[trigger] text@[j]),
        decreases to - i,
    {
        i += 1;
    }
    proof {
        lemma_leading_whitespace(text@.subrange(from as int, to as int), i - from);
    }
    i
}

/// The position just after the last character of `text[from..to]` that is
/// not whitespace, or `from`.
pub(crate) fn skip_whitespace_back(text: &Vec<char>, from: usize, to: usize) -> (r: usize)
    requires
        from <= to <= text.len(),
    ensures
        r == to - trailing_whitespace(text@.subrange(from as int, to as int)),
        from <= r <= to,
{
    let mut i: usize = to;
    while i > from && is_whitespace_char(text[i - 1])
        invariant
            from <= i <= to <= text.len(),
            forall|j: int| i <= j < to ==> is_whitespace(#[trigger] text@[j]),
        decreases i - from,
    {
        i -= 1;
    }
    proof {
        lemma_trailing_whitespace(text@.subrange(from as int, to as int), to - i);
    }
    i
}

/// Tests whether `needle` stands in `hay` at position `at`.
pub fn matches_at(hay: &Vec<char>, at: usize, needle: &Vec<char>) -> (r: bool)
    ensures
        r == occurs_at(hay@, needle@, at as int),
{
    if needle.len() > hay.len() || at > hay.len() - needle.len() {
        return false;
    }
    let mut k: usize = 0;
    while k < needle.len()
        invariant
            k <= needle.len(),
            at + needle.len() <= hay.len(),
            forall|j: int| 0 <= j < k ==> hay@[at + j] == needle@[j],
        decreases needle.len() - k,
    {
        if hay[at + k] != needle[k] {
            proof {
                let sub = hay@.subrange(at as int, at + needle.len());
                assert(sub[k as int] == hay@[at + k]);
            }
            return false;
        }
        k += 1;
    }
    assert(hay@.subrange(at as int, at + needle.len()) =~= needle@);
    true
}

/// The least position at or after `from` at which `needle` stands in `hay`.
pub(crate) fn find_from(hay: &Vec<char>, needle: &Vec<char>, from: usize) -> (r: Option<usize>)
    requires
        from <= hay.len(),
    ensures
        match r {
            Some(i) => from <= i && first_occurrence(hay@.skip(from as int), needle@) == Some(
                i - from,
            ),
            None => first_occurrence(hay@.skip(from as int), needle@) is None,
        },
{
    let ghost tail = hay@.skip(from as int);
    if needle.len() > hay.len() - from {
        proof {
            lemma_no_occurrence(tail, needle@);
        }
        return None;
    }
    let last: usize = hay.len() - needle.len();
    let mut i: usize = from;
    loop
        invariant
            from <= i <= last,
            last == hay.len() - needle.len(),
            tail == hay@.skip(from as int),
            forall|j: int| 0 <= j < i - from ==> !occurs_at(tail, needle@, j),
        decreases last - i,
    {
        proof {
            lemma_occurs_at_skip(hay@, needle@, from as int, i - from);
        }
        if matches_at(hay, i, needle) {
            proof {
                lemma_first_occurrence(tail, needle@, i - from);
            }
            return Some(i);
        }
        if i == last {
            proof {
                lemma_no_occurrence(tail, needle@);
            }
            return None;
        }
        i += 1;
    }
}

} // verus!
