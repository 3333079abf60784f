//! The streaming extractor as a state machine. A scanner is handed the
//! source piece by piece, says after each piece what it needs next, and never
//! reads by itself: whoever holds the source does the reading.

use crate::frontmatter::{delimiter, Document, DocumentView, ParseError, ParseFailure};
use crate::stream::{
    block_outcome, is_delimiter_at, is_delimiter_line, is_missing_line, lemma_line_len_bounds,
    line_at, line_len, read_spec, strip_eol, strip_eol_at,
};
use crate::text::{chars_of, trim};
use vstd::prelude::*;
use vstd::string::*;

verus! {

/// Where a scanner stands.
#[derive(Clone, Copy, Debug, PartialEq, Eq, Structural)]
pub enum Phase {
    /// Nothing was read yet: the next line must be a delimiter line.
    ExpectOpenDelimiter,
    /// The opening delimiter was read: lines are added to the block.
    AccumulatingFrontmatter,
    /// The block is complete and the rest of the source makes the body.
    AccumulatingBody,
    /// The block is complete and no body was asked for.
    Done,
    /// The block is complete and the body was read.
    Complete,
    /// The first line was no delimiter line.
    NoFrontmatter,
    /// The source ended before a closing delimiter line.
    Unclosed,
}

/// What the caller of a scanner is to hand it next.
#[derive(Clone, Copy, Debug, PartialEq, Eq, Structural)]
pub enum Action {
    /// The next line of the source with its line terminator, or the empty
    /// text where the source is exhausted.
    ReadLine,
    /// All that is left of the source.
    ReadRest,
    /// Nothing: the scanner has its result.
    Stop,
}

/// The streaming extractor as a state machine: it is handed the source
/// piece by piece and never reads by itself.
pub struct Scanner {
    phase: Phase,
    need_body: bool,
    allow_missing: bool,
    missing: bool,
    frontmatter: String,
    body: String,
}

/// The state of a scanner.
pub ghost struct ScannerView {
    pub phase: Phase,
    /// Whether the body is to be read.
    pub need_body: bool,
    /// Whether a source without frontmatter counts as one with an empty
    /// block.
    pub allow_missing: bool,
    /// Whether the source was taken as one without frontmatter.
    pub missing: bool,
    /// The block, as far as it was read.
    pub frontmatter: Seq<char>,
    /// The body, as far as it was read.
    pub body: Seq<char>,
}

impl View for Scanner {
    type V = ScannerView;

    closed spec fn view(&self) -> ScannerView {
        ScannerView {
            phase: self.phase,
            need_body: self.need_body,
            allow_missing: self.allow_missing,
            missing: self.missing,
            frontmatter: self.frontmatter@,
            body: self.body@,
        }
    }
}

/// The state of a scanner that has read nothing.
pub open spec fn initial(need_body: bool, allow_missing: bool) -> ScannerView {
    ScannerView {
        phase: Phase::ExpectOpenDelimiter,
        need_body,
        allow_missing,
        missing: false,
        frontmatter: Seq::empty(),
        body: Seq::empty(),
    }
}

/// What a scanner in a given phase asks for.
pub open spec fn action_spec(phase: Phase) -> Action {
    match phase {
        Phase::ExpectOpenDelimiter | Phase::AccumulatingFrontmatter => Action::ReadLine,
        Phase::AccumulatingBody => Action::ReadRest,
        _ => Action::Stop,
    }
}

/// The phase that follows the block: the body where it is asked for.
pub open spec fn after_block(need_body: bool) -> Phase {
    if need_body {
        Phase::AccumulatingBody
    } else {
        Phase::Done
    }
}

/// The state that follows `s` once `input` is handed in.
///
/// Before the block, a delimiter line opens it; any other first line fails,
/// or, where a missing block is allowed, begins the body after an empty
/// block. In the block, the
/// empty text fails, a delimiter line closes the block and takes the line
/// terminator off its end, any other line is added to it. After the block,
/// the input is added to the body. A scanner that has its result ignores
/// what it is handed.
pub open spec fn step_spec(s: ScannerView, input: Seq<char>) -> ScannerView {
    match s.phase {
        Phase::ExpectOpenDelimiter => {
            if is_delimiter_line(input) {
                ScannerView { phase: Phase::AccumulatingFrontmatter, ..s }
            } else if !s.allow_missing {
                ScannerView { phase: Phase::NoFrontmatter, ..s }
            } else if s.need_body {
                ScannerView {
                    phase: Phase::AccumulatingBody,
                    missing: true,
                    body: s.body + input,
                    ..s
                }
            } else {
                ScannerView { phase: Phase::Done, missing: true, ..s }
            }
        },
        Phase::AccumulatingFrontmatter => {
            if input.len() == 0 {
                ScannerView { phase: Phase::Unclosed, ..s }
            } else if is_delimiter_line(input) {
                ScannerView {
                    phase: after_block(s.need_body),
                    frontmatter: strip_eol(s.frontmatter),
                    ..s
                }
            } else {
                ScannerView { frontmatter: s.frontmatter + input, ..s }
            }
        },
        Phase::AccumulatingBody => ScannerView {
            phase: Phase::Complete,
            body: s.body + input,
            ..s
        },
        _ => s,
    }
}

/// What a scanner has found, once it asks for nothing more.
pub open spec fn outcome_spec(s: ScannerView) -> Option<Result<DocumentView, ParseFailure>> {
    match s.phase {
        Phase::Done | Phase::Complete => Some(
            Ok(DocumentView { frontmatter: s.frontmatter, body: s.body }),
        ),
        Phase::NoFrontmatter => Some(Err(ParseFailure::NoFrontmatter)),
        Phase::Unclosed => Some(Err(ParseFailure::Unclosed)),
        _ => None,
    }
}

/// The state machine moves forward only: a scanner that has its result
/// keeps it, and none goes back to the start; a missing block is found at
/// the first line only, and only where it is not allowed; an unclosed block
/// is found in the block only; the scan is done without a body only where
/// none is asked for; and the body is complete only after it was handed in.
pub proof fn lemma_transitions(s: ScannerView, input: Seq<char>)
    ensures
        action_spec(s.phase) == Action::Stop ==> step_spec(s, input) == s,
        step_spec(s, input).need_body == s.need_body,
        step_spec(s, input).allow_missing == s.allow_missing,
        step_spec(s, input).phase != Phase::ExpectOpenDelimiter,
        step_spec(s, input).phase == Phase::AccumulatingFrontmatter ==> s.phase
            == Phase::ExpectOpenDelimiter || s.phase == Phase::AccumulatingFrontmatter,
        step_spec(s, input).phase == Phase::NoFrontmatter ==> s.phase == Phase::NoFrontmatter || (
        s.phase == Phase::ExpectOpenDelimiter && !s.allow_missing),
        step_spec(s, input).phase == Phase::Unclosed ==> s.phase == Phase::Unclosed || s.phase
            == Phase::AccumulatingFrontmatter,
        step_spec(s, input).phase == Phase::Done ==> s.phase == Phase::Done || !s.need_body,
        step_spec(s, input).phase == Phase::Complete ==> s.phase == Phase::Complete || s.phase
            == Phase::AccumulatingBody,
{
    if s.phase == Phase::ExpectOpenDelimiter || s.phase == Phase::AccumulatingFrontmatter {
        if input.len() == 0 {
            lemma_empty_is_no_delimiter(input);
        }
    }
}

/// Tests whether a line is a delimiter line.
fn is_delimiter_str(line: &str) -> (r: bool)
    ensures
        r == is_delimiter_line(line@),
{
    let text = chars_of(line);
    assert(text@.subrange(0, text.len() as int) =~= text@);
    is_delimiter_at(&text, 0, text.len())
}

/// The block without the line terminator at its end.
fn strip_eol_str(block: &str) -> (r: String)
    ensures
        r@ == strip_eol(block@),
{
    let text = chars_of(block);
    assert(text@.subrange(0, text.len() as int) =~= text@);
    let end = strip_eol_at(&text, 0, text.len());
    block.substring_char(0, end).to_owned()
}

impl Scanner {
    /// A scanner that has read nothing.
    pub fn new(need_body: bool, allow_missing: bool) -> (s: Scanner)
        ensures
            s@ == initial(need_body, allow_missing),
    {
        Scanner {
            phase: Phase::ExpectOpenDelimiter,
            need_body,
            allow_missing,
            missing: false,
            frontmatter: String::new(),
            body: String::new(),
        }
    }

    /// The phase the scanner is in.
    pub fn phase(&self) -> (p: Phase)
        ensures
            p == self@.phase,
    {
        self.phase
    }

    /// Whether the source was taken as one without frontmatter.
    pub fn missing(&self) -> (m: bool)
        ensures
            m == self@.missing,
    {
        self.missing
    }

    /// What the scanner is to be handed next.
    pub fn action(&self) -> (a: Action)
        ensures
            a == action_spec(self@.phase),
    {
        match self.phase {
            Phase::ExpectOpenDelimiter | Phase::AccumulatingFrontmatter => Action::ReadLine,
            Phase::AccumulatingBody => Action::ReadRest,
            _ => Action::Stop,
        }
    }

    /// Hands the scanner what it asked for.
    pub fn step(&mut self, input: &str)
        ensures
            final(self)@ == step_spec(old(self)@, input@),
    {
        match self.phase {
            Phase::ExpectOpenDelimiter => {
                if is_delimiter_str(input) {
                    self.phase = Phase::AccumulatingFrontmatter;
                } else if !self.allow_missing {
                    self.phase = Phase::NoFrontmatter;
                } else if self.need_body {
                    self.missing = true;
                    self.body.append(input);
                    self.phase = Phase::AccumulatingBody;
                } else {
                    self.missing = true;
                    self.phase = Phase::Done;
                }
            },
            Phase::AccumulatingFrontmatter => {
                if input.is_empty() {
                    self.phase = Phase::Unclosed;
                } else if is_delimiter_str(input) {
                    let block = strip_eol_str(self.frontmatter.as_str());
                    self.frontmatter = block;
                    self.phase = if self.need_body {
                        Phase::AccumulatingBody
                    } else {
                        Phase::Done
                    };
                } else {
                    self.frontmatter.append(input);
                }
            },
            Phase::AccumulatingBody => {
                self.body.append(input);
                self.phase = Phase::Complete;
            },
            _ => {},
        }
    }

    /// The result of the scan, or `None` while the scanner asks for more.
    pub fn finish(self) -> (r: Option<Result<Document, ParseError>>)
        ensures
            match outcome_spec(self@) {
                None => r is None,
                Some(Ok(d)) => r matches Some(Ok(doc)) && doc@ == d,
                Some(Err(f)) => r matches Some(Err(e)) && e@ == f.message(),
            },
    {
        match self.phase {
            Phase::Done | Phase::Complete => Some(
                Ok(Document { frontmatter: self.frontmatter, body: self.body }),
            ),
            Phase::NoFrontmatter => Some(Err(ParseFailure::NoFrontmatter.into_error())),
            Phase::Unclosed => Some(Err(ParseFailure::Unclosed.into_error())),
            _ => None,
        }
    }
}

/// How far a phase is from a result.
pub open spec fn phase_rank(phase: Phase) -> nat {
    match phase {
        Phase::ExpectOpenDelimiter => 3,
        Phase::AccumulatingFrontmatter => 2,
        Phase::AccumulatingBody => 1,
        _ => 0,
    }
}

/// The state in which a scanner ends when it starts in `s` and is handed
/// `source` as it asks for it: line by line, the empty text once the source
/// is exhausted, and the rest in one piece.
#[verifier::opaque]
pub open spec fn feed_spec(s: ScannerView, source: Seq<char>) -> ScannerView
    decreases source.len(), phase_rank(s.phase),
    via feed_spec_decreases
{
    match action_spec(s.phase) {
        Action::ReadLine => {
            let n = line_len(source) as int;
            feed_spec(step_spec(s, source.take(n)), source.skip(n))
        },
        Action::ReadRest => step_spec(s, source),
        Action::Stop => s,
    }
}

/// The empty text is no delimiter line.
proof fn lemma_empty_is_no_delimiter(line: Seq<char>)
    requires
        line.len() == 0,
    ensures
        !is_delimiter_line(line),
{
    assert(trim(line).len() == 0);
    assert(delimiter().len() == 3);
}

#[via_fn]
proof fn feed_spec_decreases(s: ScannerView, source: Seq<char>) {
    if action_spec(s.phase) == Action::ReadLine {
        lemma_line_len_bounds(source);
        if source.len() == 0 {
            lemma_empty_is_no_delimiter(source.take(0));
        }
    }
}

/// One step of `feed_spec`.
proof fn lemma_feed_step(s: ScannerView, source: Seq<char>)
    ensures
        feed_spec(s, source) == match action_spec(s.phase) {
            Action::ReadLine => feed_spec(
                step_spec(s, source.take(line_len(source) as int)),
                source.skip(line_len(source) as int),
            ),
            Action::ReadRest => step_spec(s, source),
            Action::Stop => s,
        },
{
    reveal(feed_spec);
}

/// A scanner that closes the block ends with the block and the body.
proof fn lemma_scanner_closes(s: ScannerView, source: Seq<char>, first: int, at: int)
    requires
        s.phase == Phase::AccumulatingFrontmatter,
        0 <= first <= at < source.len(),
        s.frontmatter == source.subrange(first, at),
        s.body.len() == 0,
        is_delimiter_line(line_at(source, at)),
    ensures
        outcome_spec(feed_spec(s, source.skip(at))) == Some(
            block_outcome(source, s.need_body, first, at),
        ),
        feed_spec(s, source.skip(at)).missing == s.missing,
{
    let rest = source.skip(at);
    let n = line_len(rest) as int;
    let line = rest.take(n);
    let after = rest.skip(n);
    lemma_line_len_bounds(rest);
    assert(line =~= line_at(source, at));
    assert(after =~= source.skip(at + n));
    let next = step_spec(s, line);
    lemma_feed_step(s, rest);
    lemma_feed_step(next, after);
    assert(next.frontmatter == strip_eol(source.subrange(first, at)));
    if s.need_body {
        assert(next.body + after =~= source.skip(at + n));
    } else {
        assert(next.body =~= Seq::<char>::empty());
    }
}

/// In the block, a scanner that is handed the rest of the source ends where
/// the streaming extractor does.
proof fn lemma_scanner_in_block(s: ScannerView, source: Seq<char>, first: int, at: int)
    requires
        s.phase == Phase::AccumulatingFrontmatter,
        0 <= first <= at <= source.len(),
        s.frontmatter == source.subrange(first, at),
        s.body.len() == 0,
    ensures
        outcome_spec(feed_spec(s, source.skip(at))) == Some(
            block_outcome(source, s.need_body, first, at),
        ),
        feed_spec(s, source.skip(at)).missing == s.missing,
    decreases source.len() - at,
{
    let rest = source.skip(at);
    let n = line_len(rest) as int;
    let line = rest.take(n);
    let after = rest.skip(n);
    lemma_line_len_bounds(rest);
    lemma_feed_step(s, rest);
    if at == source.len() {
        let next = step_spec(s, line);
        assert(line.len() == 0);
        assert(next.phase == Phase::Unclosed);
        lemma_feed_step(next, after);
    } else if is_delimiter_line(line_at(source, at)) {
        lemma_scanner_closes(s, source, first, at);
    } else {
        assert(line =~= line_at(source, at));
        assert(after =~= source.skip(at + n));
        let next = ScannerView { frontmatter: s.frontmatter + line, ..s };
        assert(step_spec(s, line) == next);
        assert(next.frontmatter =~= source.subrange(first, at + n));
        lemma_scanner_in_block(next, source, first, at + n);
    }
}

/// A scanner that starts with nothing read and is handed a source as it
/// asks for it ends with what the streaming extractor makes of that source.
pub proof fn lemma_scanner_reads(source: Seq<char>, need_body: bool, allow_missing: bool)
    ensures
        outcome_spec(feed_spec(initial(need_body, allow_missing), source)) == Some(
            read_spec(source, need_body, allow_missing),
        ),
        feed_spec(initial(need_body, allow_missing), source).missing == is_missing_line(
            source,
            allow_missing,
        ),
{
    let s = initial(need_body, allow_missing);
    let n = line_len(source) as int;
    let line = source.take(n);
    let after = source.skip(n);
    let next = step_spec(s, line);
    lemma_line_len_bounds(source);
    lemma_feed_step(s, source);
    if is_delimiter_line(line) {
        assert(next.frontmatter =~= source.subrange(n, n));
        lemma_scanner_in_block(next, source, n, n);
    } else {
        lemma_feed_step(next, after);
        if allow_missing && need_body {
            assert(next.body + after =~= source);
        }
    }
}

} // verus!
