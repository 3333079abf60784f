//! Splitting a document into its frontmatter block and its body, and putting
//! the two together again.

use crate::text::{
    chars_of, find_from, first_occurrence, leading_whitespace, lemma_first_occurrence_is_least,
    matches_at, occurs_at, skip_whitespace,
};
use vstd::prelude::*;
use vstd::string::*;

verus! {

/// Why a document could not be split.
#[derive(Clone, Copy, Debug, PartialEq, Eq, Structural)]
pub enum ParseFailure {
    /// The text does not begin with the delimiter.
    NoFrontmatter,
    /// The opening delimiter is not directly followed by a line terminator.
    InvalidDelimiter,
    /// No closing delimiter follows the opening one.
    Unclosed,
}

impl ParseFailure {
    /// The message that a `ParseError` carries for this failure.
    pub open spec fn message(self) -> Seq<char> {
        match self {
            ParseFailure::NoFrontmatter => "no frontmatter found"@,
            ParseFailure::InvalidDelimiter => "invalid frontmatter delimiter"@,
            ParseFailure::Unclosed => "unclosed frontmatter"@,
        }
    }

    /// The error that reports this failure.
    pub fn into_error(self) -> (e: ParseError)
        ensures
            e@ == self.message(),
    {
        match self {
            ParseFailure::NoFrontmatter => ParseError("no frontmatter found".to_owned()),
            ParseFailure::InvalidDelimiter => ParseError(
                "invalid frontmatter delimiter".to_owned(),
            ),
            ParseFailure::Unclosed => ParseError("unclosed frontmatter".to_owned()),
        }
    }
}

/// An extraction error, with its message.
#[derive(Debug)]
pub struct ParseError(pub String);

impl View for ParseError {
    type V = Seq<char>;

    open spec fn view(&self) -> Seq<char> {
        self.0@
    }
}

impl ParseError {
    /// The message of the error.
    pub fn to_string(&self) -> (r: String)
        ensures
            r@ == self@,
    {
        self.0.clone()
    }
}

/// A document split into its two parts.
#[derive(Debug)]
pub struct Document {
    /// The text between the two delimiter lines.
    pub frontmatter: String,
    /// The text after the closing delimiter line.
    pub body: String,
}

/// The two parts of a document, as text.
pub ghost struct DocumentView {
    pub frontmatter: Seq<char>,
    pub body: Seq<char>,
}

impl View for Document {
    type V = DocumentView;

    open spec fn view(&self) -> DocumentView {
        DocumentView { frontmatter: self.frontmatter@, body: self.body@ }
    }
}

/// The delimiter token.
pub open spec fn delimiter() -> Seq<char> {
    seq!['-', '-', '-']
}

/// What the whole-buffer extractor looks for to end the block: a line feed
/// and the delimiter token. A carriage return before that line feed belongs
/// to the line terminator, not to the block.
pub open spec fn closing() -> Seq<char> {
    seq!['\n', '-', '-', '-']
}

/// The length of the line terminator at the start of `s`: 1 for a line feed,
/// 2 for a carriage return and a line feed, 0 where `s` starts with neither.
pub open spec fn eol_len(s: Seq<char>) -> nat {
    if s.len() >= 1 && s[0] == '\n' {
        1
    } else if s.len() >= 2 && s[0] == '\r' && s[1] == '\n' {
        2
    } else {
        0
    }
}

/// Where the parts of a whole document stand in its text.
pub ghost struct Layout {
    /// The position just after the opening delimiter line.
    pub block_start: int,
    /// The position at which the block ends: that of the line terminator
    /// before the closing delimiter token.
    pub block_end: int,
    /// The position of the line feed that the closing delimiter token
    /// follows.
    pub mark: int,
    /// The position at which the body begins.
    pub body_start: int,
}

/// Where a block ends that begins at `block_start` and runs up to the line
/// feed at `mark`: at the carriage return that stands in the block directly
/// before that line feed, where there is one, else at the line feed.
pub open spec fn block_end_before(text: Seq<char>, block_start: int, mark: int) -> int {
    if mark > block_start && text[mark - 1] == '\r' {
        mark - 1
    } else {
        mark
    }
}

/// Where `extract` finds the parts of a whole document.
///
/// Leading whitespace is passed over. The delimiter token must stand there,
/// with a line terminator directly after it. The block runs from there to
/// the first line terminator that the delimiter token follows, be it a line
/// feed or a carriage return and a line feed; the body begins after that
/// token and after one line terminator, where there is one.
pub open spec fn locate_spec(text: Seq<char>) -> Result<Layout, ParseFailure> {
    let start = leading_whitespace(text) as int;
    if !occurs_at(text, delimiter(), start) {
        Err(ParseFailure::NoFrontmatter)
    } else if eol_len(text.skip(start + 3)) == 0 {
        Err(ParseFailure::InvalidDelimiter)
    } else {
        let block_start = start + 3 + eol_len(text.skip(start + 3));
        match first_occurrence(text.skip(block_start), closing()) {
            None => Err(ParseFailure::Unclosed),
            Some(end) => {
                let mark = block_start + end;
                let after = mark + 4;
                Ok(
                    Layout {
                        block_start,
                        block_end: block_end_before(text, block_start, mark),
                        mark,
                        body_start: after + eol_len(text.skip(after)),
                    },
                )
            },
        }
    }
}

/// What `extract` makes of a whole document: the block and the body that
/// `locate_spec` finds in it.
pub open spec fn extract_spec(text: Seq<char>) -> Result<DocumentView, ParseFailure> {
    match locate_spec(text) {
        Err(f) => Err(f),
        Ok(l) => Ok(
            DocumentView {
                frontmatter: text.subrange(l.block_start, l.block_end),
                body: text.skip(l.body_start),
            },
        ),
    }
}

/// Whether `extract_with` takes a whole document as one without
/// frontmatter: a missing block is allowed, and the text does not begin with
/// the delimiter.
pub open spec fn is_missing(text: Seq<char>, allow_missing: bool) -> bool {
    allow_missing && extract_spec(text) == Err::<DocumentView, ParseFailure>(
        ParseFailure::NoFrontmatter,
    )
}

/// What `extract_with` makes of a whole document: what `extract` makes of
/// it, but for a document that is taken as one without frontmatter, which is
/// an empty block before the whole text.
pub open spec fn document_spec(text: Seq<char>, allow_missing: bool) -> Result<
    DocumentView,
    ParseFailure,
> {
    if is_missing(text, allow_missing) {
        Ok(DocumentView { frontmatter: Seq::empty(), body: text })
    } else {
        extract_spec(text)
    }
}

/// What `reassemble` makes of a block and a body: the delimiter line, the
/// block, a line feed unless the block ends in one, the delimiter line, the
/// body.
pub open spec fn reassemble_spec(frontmatter: Seq<char>, body: Seq<char>) -> Seq<char> {
    let open = delimiter().push('\n');
    let block = if frontmatter.len() > 0 && frontmatter.last() == '\n' {
        frontmatter
    } else {
        frontmatter.push('\n')
    };
    open + block + open + body
}

/// The length of the line terminator at `text[at..]`.
fn eol_len_at(text: &Vec<char>, at: usize) -> (n: usize)
    requires
        at <= text.len(),
    ensures
        n == eol_len(text@.skip(at as int)),
        at + n <= text.len(),
{
    let len = text.len();
    if at < len && text[at] == '\n' {
        1
    } else if at < len && len - at >= 2 && text[at] == '\r' && text[at + 1] == '\n' {
        2
    } else {
        0
    }
}

/// The delimiter token, as characters.
fn delimiter_chars() -> (v: Vec<char>)
    ensures
        v@ == delimiter(),
{
    let v: Vec<char> = vec!['-', '-', '-'];
    assert(v@ =~= delimiter());
    v
}

/// A line feed and the delimiter token, as characters.
fn closing_chars() -> (v: Vec<char>)
    ensures
        v@ == closing(),
{
    let v: Vec<char> = vec!['\n', '-', '-', '-'];
    assert(v@ =~= closing());
    v
}

/// Finds the block and the body in the characters of a whole document.
fn locate(text: &Vec<char>) -> (r: Result<(usize, usize, usize), ParseFailure>)
    ensures
        match locate_spec(text@) {
            Ok(l) => r matches Ok(p) && p.0 == l.block_start && p.1 == l.block_end && p.2
                == l.body_start && p.0 <= p.1 <= p.2 <= text.len(),
            Err(f) => r == Err::<(usize, usize, usize), ParseFailure>(f),
        },
{
    let len = text.len();
    let token = delimiter_chars();
    let close = closing_chars();
    let start = skip_whitespace(text, 0, len);
    assert(text@.subrange(0, len as int) =~= text@);
    if !matches_at(text, start, &token) {
        return Err(ParseFailure::NoFrontmatter);
    }
    let after = start + 3;
    let eol = eol_len_at(text, after);
    if eol == 0 {
        return Err(ParseFailure::InvalidDelimiter);
    }
    let block_start = after + eol;
    match find_from(text, &close, block_start) {
        None => Err(ParseFailure::Unclosed),
        Some(at) => {
            proof {
                lemma_first_occurrence_is_least(text@.skip(block_start as int), closing());
            }
            let rest = at + 4;
            let body_start = rest + eol_len_at(text, rest);
            let block_end = if at > block_start && text[at - 1] == '\r' {
                at - 1
            } else {
                at
            };
            Ok((block_start, block_end, body_start))
        },
    }
}

/// Splits a whole document into its frontmatter block and its body.
pub fn extract(markdown: &str) -> (r: Result<Document, ParseError>)
    ensures
        match extract_spec(markdown@) {
            Ok(d) => r matches Ok(doc) && doc@ == d,
            Err(f) => r matches Err(e) && e@ == f.message(),
        },
{
    match extract_with(markdown, false) {
        Ok(found) => Ok(found.0),
        Err(e) => Err(e),
    }
}

/// Splits a whole document as `extract` does. Where `allow_missing` is set,
/// a document without frontmatter is taken as an empty block before a body
/// that is the whole text. The flag that comes with the document says
/// whether it was so taken.
pub fn extract_with(markdown: &str, allow_missing: bool) -> (r: Result<(Document, bool), ParseError>)
    ensures
        match document_spec(markdown@, allow_missing) {
            Ok(d) => r matches Ok(found) && found.0@ == d && found.1 == is_missing(
                markdown@,
                allow_missing,
            ),
            Err(f) => r matches Err(e) && e@ == f.message(),
        },
{
    let text = chars_of(markdown);
    match locate(&text) {
        Err(ParseFailure::NoFrontmatter) => {
            if allow_missing {
                Ok((Document { frontmatter: String::new(), body: markdown.to_owned() }, true))
            } else {
                Err(ParseFailure::NoFrontmatter.into_error())
            }
        },
        Err(f) => Err(f.into_error()),
        Ok((block_start, block_end, body_start)) => {
            let frontmatter = markdown.substring_char(block_start, block_end).to_owned();
            let body = markdown.substring_char(body_start, text.len()).to_owned();
            Ok((Document { frontmatter, body }, false))
        },
    }
}

/// Puts a frontmatter block and a body together into one document.
pub fn reassemble(frontmatter: &str, body: &str) -> (r: String)
    ensures
        r@ == reassemble_spec(frontmatter@, body@),
{
    let n = frontmatter.unicode_len();
    let ends_in_line_feed = n > 0 && frontmatter.get_char(n - 1) == '\n';
    proof {
        reveal_strlit("---\n");
        reveal_strlit("\n");
        assert("---\n"@ =~= delimiter().push('\n'));
        assert("\n"@ =~= seq!['\n']);
    }
    let mut result = String::new();
    result.append("---\n");
    result.append(frontmatter);
    if !ends_in_line_feed {
        result.append("\n");
        assert(frontmatter@ + seq!['\n'] =~= frontmatter@.push('\n'));
    }
    result.append("---\n");
    result.append(body);
    assert(result@ =~= reassemble_spec(frontmatter@, body@));
    result
}

} // verus!
