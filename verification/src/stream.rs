//! Extraction line by line: the rules of the streaming extractor, and the
//! extractor that applies them to a source held in memory.

use crate::frontmatter::{delimiter, Document, DocumentView, ParseError, ParseFailure};
use crate::text::{chars_of, matches_at, skip_whitespace, skip_whitespace_back, trim};
use vstd::prelude::*;
use vstd::string::*;

verus! {

/// The length of the first line of `s`, its line feed included; the length
/// of `s` where it holds no line feed.
pub open spec fn line_len(s: Seq<char>) -> nat
    decreases s.len(),
{
    if s.len() == 0 {
        0
    } else if s[0] == '\n' {
        1
    } else {
        1 + line_len(s.skip(1))
    }
}

/// Whether a line is a delimiter line: the delimiter token, with nothing but
/// whitespace around it.
pub open spec fn is_delimiter_line(line: Seq<char>) -> bool {
    trim(line) == delimiter()
}

/// Whether a line of `text` begins at `p`.
pub open spec fn is_line_start(text: Seq<char>, p: int) -> bool {
    0 <= p < text.len() && (p == 0 || text[p - 1] == '\n')
}

/// The line of `text` that begins at `p`, its line feed included.
pub open spec fn line_at(text: Seq<char>, p: int) -> Seq<char> {
    text.subrange(p, p + line_len(text.skip(p)))
}

/// `s` without the line terminator at its end: a line feed, and a carriage
/// return before it where there is one.
pub open spec fn strip_eol(s: Seq<char>) -> Seq<char> {
    if s.len() > 0 && s.last() == '\n' {
        let t = s.drop_last();
        if t.len() > 0 && t.last() == '\r' {
            t.drop_last()
        } else {
            t
        }
    } else {
        s
    }
}

/// The start of the first delimiter line among the lines of `text` that
/// begin at `at` and after it, where `at` is the start of a line.
pub open spec fn closing_line_from(text: Seq<char>, at: int) -> Option<int>
    decreases text.len() - at,
    via closing_line_from_decreases
{
    if at < 0 || at >= text.len() {
        None
    } else if is_delimiter_line(line_at(text, at)) {
        Some(at)
    } else {
        closing_line_from(text, at + line_len(text.skip(at)))
    }
}

#[via_fn]
proof fn closing_line_from_decreases(text: Seq<char>, at: int) {
    if 0 <= at < text.len() {
        lemma_line_len_bounds(text.skip(at));
    }
}

/// What the streaming extractor finds from the start `at` of a line on, in
/// a source whose block began at `first`: the block runs up to the next
/// delimiter line, less the line terminator at its end, and the body is what
/// follows that line, or empty where no body is asked for.
pub open spec fn block_outcome(source: Seq<char>, need_body: bool, first: int, at: int) -> Result<
    DocumentView,
    ParseFailure,
> {
    match closing_line_from(source, at) {
        None => Err(ParseFailure::Unclosed),
        Some(k) => Ok(
            DocumentView {
                frontmatter: strip_eol(source.subrange(first, k)),
                body: if need_body {
                    source.skip(k + line_len(source.skip(k)))
                } else {
                    Seq::empty()
                },
            },
        ),
    }
}

/// What the streaming extractor makes of a source: the first line must be a
/// delimiter line, and the block begins after it.
pub open spec fn extract_reader_spec(source: Seq<char>, need_body: bool) -> Result<
    DocumentView,
    ParseFailure,
> {
    let first = line_len(source) as int;
    if !is_delimiter_line(source.take(first)) {
        Err(ParseFailure::NoFrontmatter)
    } else {
        block_outcome(source, need_body, first, first)
    }
}

/// A first line ends at its first line feed.
pub proof fn lemma_line_len(s: Seq<char>, n: int)
    requires
        0 <= n <= s.len(),
        forall|i: int| 0 <= i < n - 1 ==> #[trigger] s[i] != '\n',
        n == s.len() && (n == 0 || s[n - 1] != '\n') || n > 0 && s[n - 1] == '\n',
    ensures
        line_len(s) == n,
    decreases n,
{
    if n > 0 && s[0] != '\n' {
        let t = s.skip(1);
        assert forall|i: int| 0 <= i < n - 2 implies #[trigger] t[i] != '\n' by {
            assert(t[i] == s[i + 1]);
        }
        if n > 1 {
            assert(t[n - 2] == s[n - 1]);
        }
        lemma_line_len(t, n - 1);
    }
}

/// A first line holds no line feed before its last character, and is a
/// whole text only where that holds none or ends in its only one.
pub proof fn lemma_line_len_bounds(s: Seq<char>)
    ensures
        line_len(s) <= s.len(),
        s.len() > 0 ==> line_len(s) > 0,
        forall|i: int| 0 <= i < line_len(s) - 1 ==> #[trigger] s[i] != '\n',
        line_len(s) < s.len() ==> s[line_len(s) - 1] == '\n',
    decreases s.len(),
{
    if s.len() > 0 && s[0] != '\n' {
        let t = s.skip(1);
        lemma_line_len_bounds(t);
        assert forall|i: int| 0 <= i < line_len(s) - 1 implies #[trigger] s[i] != '\n' by {
            if i > 0 {
                assert(t[i - 1] == s[i]);
            }
        }
        if line_len(s) < s.len() {
            assert(t[line_len(t) - 1] == s[line_len(s) - 1]);
        }
    }
}

/// What `closing_line_from` finds is the first delimiter line at or after
/// `at`: a line begins there, it is a delimiter line, and no line that
/// begins between `at` and it is one.
pub proof fn lemma_closing_line_is_first(text: Seq<char>, at: int)
    requires
        at == text.len() || is_line_start(text, at),
    ensures
        match closing_line_from(text, at) {
            Some(k) => {
                &&& at <= k
                &&& is_line_start(text, k)
                &&& is_delimiter_line(line_at(text, k))
                &&& forall|p: int|
                    at <= p < k && is_line_start(text, p) ==> !is_delimiter_line(
                        #[trigger] line_at(text, p),
                    )
            },
            None => forall|p: int|
                at <= p && is_line_start(text, p) ==> !is_delimiter_line(
                    #[trigger] line_at(text, p),
                ),
        },
    decreases text.len() - at,
{
    if at < text.len() {
        let rest = text.skip(at);
        let end = at + line_len(rest);
        lemma_line_len_bounds(rest);
        assert forall|p: int| at < p < end implies !is_line_start(text, p) by {
            assert(rest[p - 1 - at] == text[p - 1]);
        }
        if end < text.len() {
            assert(rest[end - at - 1] == text[end - 1]);
        }
        if !is_delimiter_line(line_at(text, at)) {
            lemma_closing_line_is_first(text, end);
        }
    }
}

/// The position just after the line of `text` that begins at `from`.
pub(crate) fn line_end(text: &Vec<char>, from: usize) -> (r: usize)
    requires
        from <= text.len(),
    ensures
        r == from + line_len(text@.skip(from as int)),
        from <= r <= text.len(),
        from < text.len() ==> from < r,
{
    let len = text.len();
    let mut i: usize = from;
    while i < len && text[i] != '\n'
        invariant
            from <= i <= len == text.len(),
            forall|j: int| from <= j < i ==> #[trigger] text@[j] != '\n',
        decreases len - i,
    {
        i += 1;
    }
    let r = if i < len {
        i + 1
    } else {
        i
    };
    proof {
        lemma_line_len(text@.skip(from as int), r - from);
    }
    r
}

/// Tests whether `text[from..to]` is a delimiter line.
pub(crate) fn is_delimiter_at(text: &Vec<char>, from: usize, to: usize) -> (r: bool)
    requires
        from <= to <= text.len(),
    ensures
        r == is_delimiter_line(text@.subrange(from as int, to as int)),
{
    let ghost line = text@.subrange(from as int, to as int);
    let i = skip_whitespace(text, from, to);
    let j = skip_whitespace_back(text, i, to);
    assert(line.skip(i - from) =~= text@.subrange(i as int, to as int));
    assert(trim(line) =~= text@.subrange(i as int, j as int));
    if j - i != 3 {
        return false;
    }
    let token: Vec<char> = vec!['-', '-', '-'];
    assert(token@ =~= delimiter());
    matches_at(text, i, &token)
}

/// The position at which `strip_eol` ends `text[from..to]`.
pub(crate) fn strip_eol_at(text: &Vec<char>, from: usize, to: usize) -> (r: usize)
    requires
        from <= to <= text.len(),
    ensures
        from <= r <= to,
        text@.subrange(from as int, r as int) == strip_eol(text@.subrange(from as int, to as int)),
{
    let ghost s = text@.subrange(from as int, to as int);
    if to > from && text[to - 1] == '\n' {
        assert(s.drop_last() =~= text@.subrange(from as int, to - 1));
        if to - 1 > from && text[to - 2] == '\r' {
            assert(s.drop_last().drop_last() =~= text@.subrange(from as int, to - 2));
            to - 2
        } else {
            to - 1
        }
    } else {
        to
    }
}

/// Finds, line by line, the first line, the closing delimiter line and the
/// start of the body.
fn locate_lines(text: &Vec<char>) -> (r: Result<(usize, usize, usize), ParseFailure>)
    ensures
        match r {
            Ok(p) => {
                &&& p.0 == line_len(text@)
                &&& is_delimiter_line(text@.take(p.0 as int))
                &&& closing_line_from(text@, p.0 as int) == Some(p.1 as int)
                &&& p.2 == p.1 + line_len(text@.skip(p.1 as int))
                &&& p.0 <= p.1 <= p.2 <= text.len()
            },
            Err(f) => extract_reader_spec(text@, true) == Err::<DocumentView, ParseFailure>(f),
        },
{
    let len = text.len();
    let first = line_end(text, 0);
    assert(text@.skip(0) =~= text@);
    assert(text@.subrange(0, first as int) =~= text@.take(first as int));
    if !is_delimiter_at(text, 0, first) {
        return Err(ParseFailure::NoFrontmatter);
    }
    let mut at: usize = first;
    while at < len
        invariant
            first <= at <= len == text.len(),
            first == line_len(text@),
            is_delimiter_line(text@.take(first as int)),
            closing_line_from(text@, first as int) == closing_line_from(text@, at as int),
        decreases len - at,
    {
        let end = line_end(text, at);
        if is_delimiter_at(text, at, end) {
            return Ok((first, at, end));
        }
        at = end;
    }
    Err(ParseFailure::Unclosed)
}

/// Splits a source held in memory as the streaming extractor does: line by
/// line, and without the body where `need_body` is false.
pub fn extract_reader(source: &str, need_body: bool) -> (r: Result<Document, ParseError>)
    ensures
        match extract_reader_spec(source@, need_body) {
            Ok(d) => r matches Ok(doc) && doc@ == d,
            Err(f) => r matches Err(e) && e@ == f.message(),
        },
{
    match extract_reader_with(source, need_body, false) {
        Ok(found) => Ok(found.0),
        Err(e) => Err(e),
    }
}

/// Splits a source held in memory as `extract_reader` does. Where
/// `allow_missing` is set, a source whose first line is no delimiter line is
/// taken as an empty block before a body, which is the whole source where
/// the body is asked for. The flag that comes with the document says whether
/// it was so taken.
pub fn extract_reader_with(source: &str, need_body: bool, allow_missing: bool) -> (r: Result<
    (Document, bool),
    ParseError,
>)
    ensures
        match read_spec(source@, need_body, allow_missing) {
            Ok(d) => r matches Ok(found) && found.0@ == d && found.1 == is_missing_line(
                source@,
                allow_missing,
            ),
            Err(f) => r matches Err(e) && e@ == f.message(),
        },
{
    let text = chars_of(source);
    match locate_lines(&text) {
        Err(ParseFailure::NoFrontmatter) => {
            if allow_missing {
                let body = if need_body {
                    source.to_owned()
                } else {
                    String::new()
                };
                Ok((Document { frontmatter: String::new(), body }, true))
            } else {
                Err(ParseFailure::NoFrontmatter.into_error())
            }
        },
        Err(f) => Err(f.into_error()),
        Ok((first, at, body_start)) => {
            let block_end = strip_eol_at(&text, first, at);
            let frontmatter = source.substring_char(first, block_end).to_owned();
            let body = if need_body {
                source.substring_char(body_start, text.len()).to_owned()
            } else {
                String::new()
            };
            Ok((Document { frontmatter, body }, false))
        },
    }
}

/// Whether the streaming extractor takes a source as one without
/// frontmatter: a missing block is allowed, and the first line is no
/// delimiter line.
pub open spec fn is_missing_line(source: Seq<char>, allow_missing: bool) -> bool {
    allow_missing && !is_delimiter_line(source.take(line_len(source) as int))
}

/// What the streaming extractor makes of a source where a missing block may
/// be allowed: a source that is taken as one without frontmatter is an empty
/// block before a body, which is the source itself where the body is asked
/// for.
pub open spec fn read_spec(source: Seq<char>, need_body: bool, allow_missing: bool) -> Result<
    DocumentView,
    ParseFailure,
> {
    if is_missing_line(source, allow_missing) {
        Ok(
            DocumentView {
                frontmatter: Seq::empty(),
                body: if need_body {
                    source
                } else {
                    Seq::empty()
                },
            },
        )
    } else {
        extract_reader_spec(source, need_body)
    }
}

} // verus!
