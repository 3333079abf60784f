//! What holds of the extractors and the reassembler taken together.

use crate::frontmatter::{
    block_end_before, closing, delimiter, eol_len, extract_spec, locate_spec, reassemble_spec,
    DocumentView, ParseFailure,
};
use crate::stream::{
    closing_line_from, extract_reader_spec, is_delimiter_line, is_line_start,
    lemma_closing_line_is_first, lemma_line_len, lemma_line_len_bounds, line_at, line_len,
    strip_eol,
};
use crate::text::{
    contains, first_occurrence, is_first_occurrence, is_whitespace, leading_whitespace,
    lemma_first_occurrence, lemma_first_occurrence_is_least, lemma_leading_whitespace,
    lemma_leading_whitespace_bounds, lemma_trailing_whitespace,
    lemma_trailing_whitespace_bounds, occurs_at, trim,
};
use crate::query::json_to_yaml_spec;
use crate::{conclude_spec, format_spec, ErrorView};
use vstd::prelude::*;

verus! {

/// Whether a document is laid out as `reassemble` lays one out: the opening
/// delimiter token stands at the very start with a line feed after it, the
/// block ends in neither a line feed nor a carriage return, and a line feed
/// follows the closing delimiter token.
pub open spec fn is_canonical(text: Seq<char>) -> bool {
    match locate_spec(text) {
        Err(_) => false,
        Ok(l) => {
            &&& l.block_start == 4
            &&& l.block_end == l.mark
            &&& (l.mark == l.block_start || text[l.mark - 1] != '\n')
            &&& l.body_start == l.mark + 5
        },
    }
}

/// What `locate_spec` finds stands in the text: the delimiter token and a
/// line terminator before the block, and a line feed and the delimiter
/// token after it.
pub proof fn lemma_layout(text: Seq<char>)
    requires
        locate_spec(text) is Ok,
    ensures
        ({
            let l = locate_spec(text)->Ok_0;
            let start = leading_whitespace(text) as int;
            let eol = eol_len(text.skip(start + 3)) as int;
            let after = l.mark + 4;
            &&& 0 <= start
            &&& 1 <= eol <= 2
            &&& l.block_start == start + 3 + eol
            &&& l.block_start <= l.block_end <= l.mark
            &&& l.block_end == block_end_before(text, l.block_start, l.mark)
            &&& after <= l.body_start <= text.len()
            &&& l.body_start == after + eol_len(text.skip(after))
            &&& text[start] == '-' && text[start + 1] == '-' && text[start + 2] == '-'
            &&& text[l.block_start - 1] == '\n'
            &&& eol == 2 ==> text[start + 3] == '\r'
            &&& text[l.mark] == '\n'
            &&& text[l.mark + 1] == '-' && text[l.mark + 2] == '-' && text[l.mark
                + 3] == '-'
            &&& is_first_occurrence(text.skip(l.block_start), closing(), l.mark - l.block_start)
        }),
{
    let l = locate_spec(text)->Ok_0;
    let start = leading_whitespace(text) as int;
    lemma_leading_whitespace_bounds(text);
    let token = text.subrange(start, start + 3);
    assert(token == delimiter());
    assert(token[0] == '-' && token[1] == '-' && token[2] == '-');
    let tail = text.skip(start + 3);
    let eol = eol_len(tail) as int;
    assert(tail[eol - 1] == '\n');
    if eol == 2 {
        assert(tail[0] == '\r');
    }
    let block = text.skip(l.block_start);
    lemma_first_occurrence_is_least(block, closing());
    let end = first_occurrence(block, closing())->0;
    let mark = block.subrange(end, end + 4);
    assert(mark == closing());
    assert(mark[0] == '\n' && mark[1] == '-' && mark[2] == '-' && mark[3] == '-');
    let rest = text.skip(l.mark + 4);
    assert(eol_len(rest) <= rest.len());
}

/// The block that `extract` takes holds no line feed that the delimiter
/// token follows, and the body is all that stands after the closing
/// delimiter token and its line terminator.
pub proof fn lemma_block_holds_no_closing(text: Seq<char>)
    requires
        extract_spec(text) is Ok,
    ensures
        !contains(extract_spec(text)->Ok_0.frontmatter, closing()),
        extract_spec(text)->Ok_0.body == text.skip(locate_spec(text)->Ok_0.body_start),
{
    let l = locate_spec(text)->Ok_0;
    let block = text.skip(l.block_start);
    let found = extract_spec(text)->Ok_0.frontmatter;
    lemma_layout(text);
    assert forall|j: int| !occurs_at(found, closing(), j) by {
        if occurs_at(found, closing(), j) {
            assert(block.subrange(j, j + 4) =~= found.subrange(j, j + 4));
            assert(occurs_at(block, closing(), j));
        }
    }
}

/// Round trip: `extract` splits a document and `reassemble` gives that
/// document back on the documents that are laid out as `reassemble` lays
/// one out, and on no others.
pub proof fn lemma_round_trip(text: Seq<char>)
    ensures
        is_canonical(text) <==> extract_spec(text) is Ok && reassemble_spec(
            extract_spec(text)->Ok_0.frontmatter,
            extract_spec(text)->Ok_0.body,
        ) == text,
{
    if extract_spec(text) is Ok {
        lemma_round_trip_of_split(text);
    }
}

/// The round trip for a document that `extract` splits.
proof fn lemma_round_trip_of_split(text: Seq<char>)
    requires
        extract_spec(text) is Ok,
    ensures
        ({
            let d = extract_spec(text)->Ok_0;
            reassemble_spec(d.frontmatter, d.body) == text <==> is_canonical(text)
        }),
{
    let l = locate_spec(text)->Ok_0;
    let d = extract_spec(text)->Ok_0;
    let again = reassemble_spec(d.frontmatter, d.body);
    let open = delimiter().push('\n');
    let start = leading_whitespace(text) as int;
    lemma_layout(text);
    let n = d.frontmatter.len() as int;
    assert(n == l.block_end - l.block_start);
    assert(open.len() == 4 && open[0] == '-' && open[1] == '-' && open[2] == '-' && open[3]
        == '\n');
    let ends_in_line_feed = n > 0 && d.frontmatter.last() == '\n';
    if n > 0 {
        assert(d.frontmatter.last() == text[l.block_end - 1]);
    }
    if is_canonical(text) {
        assert(!ends_in_line_feed);
        let rest = text.skip(l.mark + 4);
        assert(eol_len(rest) == 1);
        assert(rest[0] == '\n');
        assert(again =~= text);
    }
    if again == text {
        assert(again[0] == '-');
        assert(!is_whitespace(text[0]));
        assert(start == 0);
        assert(again[3] == '\n');
        assert(text.skip(3)[0] == '\n');
        assert(l.block_start == 4);
        if l.block_end < l.mark {
            assert(text[4 + n] == '\r');
            assert(again[4 + n] == '\n' || again[4 + n] == '-');
            assert(false);
        }
        if ends_in_line_feed {
            assert(again[4 + n] == '-');
            assert(false);
        }
        assert(again[4 + n + 4] == '\n');
        let rest = text.skip(l.mark + 4);
        assert(rest[0] == '\n');
        assert(is_canonical(text));
    }
}

/// The block as `reassemble` writes it, less the line feed at its end.
pub open spec fn written_block(frontmatter: Seq<char>) -> Seq<char> {
    if frontmatter.len() > 0 && frontmatter.last() == '\n' {
        frontmatter.drop_last()
    } else {
        frontmatter
    }
}

/// What `reassemble` puts together, `extract` takes apart again: from a
/// block that holds no line feed followed by the delimiter token and, less
/// the line feed at its end, does not end in a carriage return, and a body,
/// it gives the block, less a line feed at its end, and the body.
pub proof fn lemma_reassembled_extracts(frontmatter: Seq<char>, body: Seq<char>)
    requires
        !contains(written_block(frontmatter), closing()),
        written_block(frontmatter).len() == 0 || written_block(frontmatter).last() != '\r',
    ensures
        extract_spec(reassemble_spec(frontmatter, body)) == Ok::<DocumentView, ParseFailure>(
            DocumentView { frontmatter: written_block(frontmatter), body },
        ),
{
    let block = written_block(frontmatter);
    let n = block.len() as int;
    let text = reassemble_spec(frontmatter, body);
    let open = delimiter().push('\n');
    assert(open.len() == 4 && open[0] == '-' && open[1] == '-' && open[2] == '-' && open[3]
        == '\n');
    assert(text =~= open + block.push('\n') + open + body);
    assert(text.len() == n + 9 + body.len());
    assert(text[0] == '-' && text[1] == '-' && text[2] == '-' && text[3] == '\n');
    assert(text[4 + n] == '\n' && text[5 + n] == '-' && text[6 + n] == '-' && text[7 + n] == '-'
        && text[8 + n] == '\n');
    lemma_leading_whitespace(text, 0);
    assert(text.subrange(0, 3) =~= delimiter());
    assert(text.skip(3)[0] == '\n');
    let tail = text.skip(4);
    assert(tail.subrange(n, n + 4) =~= closing());
    assert forall|j: int| 0 <= j < n implies !occurs_at(tail, closing(), j) by {
        if occurs_at(tail, closing(), j) {
            let found = tail.subrange(j, j + 4);
            assert(found[0] == tail[j] && found[1] == tail[j + 1] && found[2] == tail[j + 2]
                && found[3] == tail[j + 3]);
            if j + 4 <= n {
                assert(block.subrange(j, j + 4) =~= found);
                assert(occurs_at(block, closing(), j));
            }
        }
    }
    lemma_first_occurrence(tail, closing(), n);
    if n > 0 {
        assert(text[3 + n] == block.last());
    }
    assert(block_end_before(text, 4, 4 + n) == 4 + n);
    let rest = text.skip(n + 8);
    assert(rest[0] == '\n');
    assert(eol_len(rest) == 1);
    let l = locate_spec(text)->Ok_0;
    assert(l.block_start == 4 && l.mark == 4 + n && l.block_end == 4 + n && l.body_start == n + 9);
    assert(text.subrange(4, 4 + n) =~= block);
    assert(text.skip(n + 9) =~= body);
}

/// The block that the streaming extractor takes is made of lines none of
/// which is a delimiter line, and the line after them is one.
pub proof fn lemma_stream_block_holds_no_delimiter_line(source: Seq<char>, need_body: bool)
    requires
        extract_reader_spec(source, need_body) is Ok,
    ensures
        ({
            let first = line_len(source) as int;
            let closing_start = closing_line_from(source, first)->0;
            &&& first <= closing_start
            &&& is_delimiter_line(line_at(source, closing_start))
            &&& forall|p: int|
                first <= p < closing_start && is_line_start(source, p) ==> !is_delimiter_line(
                    #[trigger] line_at(source, p),
                )
        }),
{
    lemma_line_len_bounds(source);
    lemma_closing_line_is_first(source, line_len(source) as int);
}

/// Whether the two extractors read a document alike: the opening delimiter
/// stands in the first line of the text, no line of the block is a delimiter
/// line, and the closing delimiter token ends its line. The line terminators
/// may be line feeds, or carriage returns and line feeds.
pub open spec fn is_well_formed(text: Seq<char>) -> bool {
    match locate_spec(text) {
        Err(_) => false,
        Ok(l) => {
            &&& forall|i: int| 0 <= i < leading_whitespace(text) ==> #[trigger] text[i] != '\n'
            &&& forall|p: int|
                l.block_start <= p <= l.mark && is_line_start(text, p) ==> !is_delimiter_line(
                    #[trigger] line_at(text, p),
                )
            &&& (l.mark + 4 == text.len() || l.body_start > l.mark + 4)
        },
    }
}

/// A delimiter line holds at least the three characters of the token.
proof fn lemma_delimiter_line_len(line: Seq<char>)
    requires
        is_delimiter_line(line),
    ensures
        line.len() >= 3,
{
    lemma_leading_whitespace_bounds(line);
    lemma_trailing_whitespace_bounds(line.skip(leading_whitespace(line) as int));
    assert(delimiter().len() == 3);
}

/// A line made of whitespace, the delimiter token and whitespace is a
/// delimiter line.
proof fn lemma_delimiter_line(line: Seq<char>, lead: int)
    requires
        0 <= lead,
        lead + 3 <= line.len(),
        forall|i: int| 0 <= i < lead ==> is_whitespace(#[trigger] line[i]),
        line[lead] == '-' && line[lead + 1] == '-' && line[lead + 2] == '-',
        forall|i: int| lead + 3 <= i < line.len() ==> is_whitespace(#[trigger] line[i]),
    ensures
        is_delimiter_line(line),
{
    lemma_leading_whitespace(line, lead);
    let t = line.skip(lead);
    lemma_trailing_whitespace(t, t.len() - 3);
    assert(trim(line) =~= delimiter());
}

/// A line made of whitespace alone is no delimiter line.
proof fn lemma_blank_line(line: Seq<char>)
    requires
        forall|i: int| 0 <= i < line.len() ==> is_whitespace(#[trigger] line[i]),
    ensures
        !is_delimiter_line(line),
{
    lemma_leading_whitespace(line, line.len() as int);
    assert(trim(line).len() == 0);
    assert(delimiter().len() == 3);
}

/// The line that begins with the closing delimiter token runs over the
/// token and the first line of what follows it.
proof fn lemma_closing_line_len(text: Seq<char>, block_end: int)
    requires
        0 <= block_end,
        block_end + 4 <= text.len(),
        text[block_end + 1] == '-' && text[block_end + 2] == '-' && text[block_end + 3] == '-',
    ensures
        line_len(text.skip(block_end + 1)) == 3 + line_len(text.skip(block_end + 4)),
{
    let a = text.skip(block_end + 1);
    let b = a.skip(1);
    let c = b.skip(1);
    assert(a[0] == '-' && b[0] == '-' && c[0] == '-');
    assert(c.skip(1) =~= text.skip(block_end + 4));
    assert(line_len(c) == 1 + line_len(c.skip(1)));
    assert(line_len(b) == 1 + line_len(c));
    assert(line_len(a) == 1 + line_len(b));
}

/// Where the opening delimiter stands in the first line of the text, that
/// line is a delimiter line and ends where the block begins.
proof fn lemma_opening_line(text: Seq<char>)
    requires
        locate_spec(text) is Ok,
        forall|i: int| 0 <= i < leading_whitespace(text) ==> #[trigger] text[i] != '\n',
    ensures
        line_len(text) == locate_spec(text)->Ok_0.block_start,
        is_delimiter_line(text.take(line_len(text) as int)),
{
    let l = locate_spec(text)->Ok_0;
    let start = leading_whitespace(text) as int;
    lemma_layout(text);
    lemma_leading_whitespace_bounds(text);
    lemma_line_len(text, l.block_start);
    lemma_delimiter_line(text.take(l.block_start), start);
}

/// Extractor equivalence: the whole-buffer extractor and the streaming
/// extractor, with the body asked for, both succeed and give the same block
/// and the same body on the well-formed documents, and on no others.
pub proof fn lemma_extractors_agree(text: Seq<char>)
    ensures
        is_well_formed(text) <==> extract_spec(text) is Ok && extract_reader_spec(text, true)
            == extract_spec(text),
{
    if locate_spec(text) is Ok {
        let l = locate_spec(text)->Ok_0;
        let start = leading_whitespace(text) as int;
        let rest = text.skip(l.mark + 4);
        let closing_start = l.mark + 1;
        lemma_layout(text);
        lemma_leading_whitespace_bounds(text);
        lemma_closing_line_len(text, l.mark);
        lemma_line_len_bounds(rest);
        let closing_line = line_at(text, closing_start);
        if is_well_formed(text) {
            lemma_opening_line(text);
            assert(is_delimiter_line(closing_line)) by {
                lemma_delimiter_line(closing_line, 0);
            }
            lemma_closing_line_is_first(text, l.block_start);
            assert(closing_line_from(text, l.block_start) == Some(closing_start));
            let lines = text.subrange(l.block_start, closing_start);
            let block = lines.drop_last();
            assert(block =~= text.subrange(l.block_start, l.mark));
            if l.mark > l.block_start && text[l.mark - 1] == '\r' {
                assert(block.last() == '\r');
                assert(block.drop_last() =~= text.subrange(l.block_start, l.mark - 1));
            } else if l.mark > l.block_start {
                assert(block.last() == text[l.mark - 1]);
            }
            assert(strip_eol(lines) == text.subrange(l.block_start, l.block_end));
            assert(extract_reader_spec(text, true) == extract_spec(text));
        }
        if extract_reader_spec(text, true) == extract_spec(text) {
            let first = line_len(text) as int;
            lemma_line_len_bounds(text);
            assert forall|i: int| 0 <= i < start implies #[trigger] text[i] != '\n' by {
                if text[i] == '\n' {
                    lemma_blank_line(text.take(first));
                }
            }
            lemma_opening_line(text);
            let k = closing_line_from(text, first)->0;
            lemma_closing_line_is_first(text, first);
            let tail = text.skip(k);
            let line = line_at(text, k);
            lemma_line_len_bounds(tail);
            lemma_delimiter_line_len(line);
            assert(text.skip(k + line_len(tail)).len() == text.skip(l.body_start).len());
            assert(k + line_len(tail) == l.body_start);
            if k <= l.mark {
                assert(tail[l.mark - k] == text[l.mark]);
                assert(false);
            }
            if k > closing_start {
                assert(text[k - 1] == '\n');
                assert(false);
            }
            assert(k == closing_start);
            assert(is_well_formed(text));
        }
    }
}

/// A mutation leaves the body untouched, and a query gives one formatted
/// value: the text that `conclude` gives is, for a mutation, some block
/// reassembled with the body, and for a query, the formatted text of some
/// value, which stands here as its JSON text.
pub proof fn lemma_output_shape(
    mutation: bool,
    body: Seq<char>,
    outcome: Result<Seq<char>, Seq<char>>,
    text: Seq<char>,
)
    requires
        conclude_spec(mutation, body, outcome) == Ok::<Seq<char>, ErrorView>(text),
    ensures
        mutation ==> exists|block: Seq<char>| text == #[trigger] reassemble_spec(block, body),
        !mutation ==> exists|json: Seq<char>| text == #[trigger] format_spec(json),
{
    let json = outcome->Ok_0;
    if mutation {
        let block = json_to_yaml_spec(json)->Ok_0;
        assert(text == reassemble_spec(block, body));
    } else {
        assert(text == format_spec(json));
    }
}

} // verus!
