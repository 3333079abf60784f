//! Query and edit the frontmatter block at the top of a text document.
//!
//! A document begins with a block of YAML between two `---` lines. An
//! expression of a jq-like filter language is evaluated on that block. An
//! expression that only reads gives the value it finds; one that assigns
//! gives the whole document back, with the changed block before the
//! untouched body.
//!
//! The library does all of this but the run of the filter. `begin` splits
//! the document, classifies the expression and compiles it into a job;
//! whoever uses the library runs the job's filter on the job's value with
//! the engine, and `conclude` makes the output from the first item that the
//! run yields.

pub mod codec;
pub mod engine;
pub mod frontmatter;
pub mod laws;
pub mod query;
pub mod scanner;
pub mod stream;
pub mod text;

pub use frontmatter::{extract, extract_with, reassemble, Document, ParseError};
pub use query::{
    compile, first_result, is_mutation, json_to_yaml, prepare, yaml_to_json, Evaluation,
    QueryError,
};
pub use scanner::{Action, Phase, Scanner};
pub use stream::{extract_reader, extract_reader_with};

use codec::{json_pretty, json_string, json_text, pretty_of, string_of};
use engine::filter_text;
use frontmatter::{document_spec, is_missing, reassemble_spec, DocumentView, ParseFailure};
use query::{
    first_result_spec, first_view, is_mutation_spec, json_to_yaml_spec, prepare_allows,
    prepare_view,
};
use stream::{is_missing_line, read_spec};
use vstd::prelude::*;
use vstd::std_specs::convert::FromSpecImpl;

verus! {

/// An error of the library: from splitting the document, or from
/// evaluating the expression.
#[derive(Debug)]
pub enum Error {
    /// The document could not be split.
    Parse(String),
    /// The expression could not be evaluated, or its result not be encoded.
    Query(String),
}

/// An error of the library, with its message as text.
pub ghost enum ErrorView {
    Parse(Seq<char>),
    Query(Seq<char>),
}

impl View for Error {
    type V = ErrorView;

    open spec fn view(&self) -> ErrorView {
        match self {
            Error::Parse(m) => ErrorView::Parse(m@),
            Error::Query(m) => ErrorView::Query(m@),
        }
    }
}

impl ErrorView {
    /// The message of the error.
    pub open spec fn message(self) -> Seq<char> {
        match self {
            ErrorView::Parse(m) => m,
            ErrorView::Query(m) => m,
        }
    }
}

impl Error {
    /// The message of the error.
    pub fn to_string(&self) -> (r: String)
        ensures
            r@ == self@.message(),
    {
        match self {
            Error::Parse(m) => m.clone(),
            Error::Query(m) => m.clone(),
        }
    }
}

impl From<ParseError> for Error {
    fn from(e: ParseError) -> (r: Error) {
        Error::Parse(e.0)
    }
}

impl FromSpecImpl<ParseError> for Error {
    open spec fn obeys_from_spec() -> bool {
        true
    }

    open spec fn from_spec(e: ParseError) -> Error {
        Error::Parse(e.0)
    }
}

impl From<QueryError> for Error {
    fn from(e: QueryError) -> (r: Error) {
        Error::Query(e.0)
    }
}

impl FromSpecImpl<QueryError> for Error {
    open spec fn obeys_from_spec() -> bool {
        true
    }

    open spec fn from_spec(e: QueryError) -> Error {
        Error::Query(e.0)
    }
}

/// The text that `format_output` gives for the value with the JSON text
/// `json`: the text of a string as it is, and the indented JSON text of any
/// other value.
pub open spec fn format_spec(json: Seq<char>) -> Seq<char> {
    match json_string(json) {
        Some(s) => s,
        None => match json_pretty(json) {
            Some(p) => p,
            None => Seq::empty(),
        },
    }
}

/// What `render` gives for the value with the JSON text `json`: for a
/// mutation, the document made of the value as YAML and the body; for a
/// query, the formatted value.
pub open spec fn render_spec(mutation: bool, body: Seq<char>, json: Seq<char>) -> Result<
    Seq<char>,
    ErrorView,
> {
    if mutation {
        match json_to_yaml_spec(json) {
            Ok(yaml) => Ok(reassemble_spec(yaml, body)),
            Err(m) => Err(ErrorView::Query(m)),
        }
    } else {
        Ok(format_spec(json))
    }
}

/// What follows from the outcome of an evaluation: its error, or the
/// rendered value.
pub open spec fn conclude_spec(
    mutation: bool,
    body: Seq<char>,
    outcome: Result<Seq<char>, Seq<char>>,
) -> Result<Seq<char>, ErrorView> {
    match outcome {
        Ok(json) => render_spec(mutation, body, json),
        Err(m) => Err(ErrorView::Query(m)),
    }
}

/// The YAML text that is evaluated for a document: its block, and for a
/// document that was taken as one without frontmatter the empty mapping
/// `{}`.
///
/// The empty block of such a document would decode to null, and the engine
/// refuses to read or set a field of null. With the empty mapping in its
/// place an expression can give its first fields to a document that has
/// none yet. A block that stands in the document is evaluated as it is,
/// empty or not.
pub open spec fn evaluation_input_spec(frontmatter: Seq<char>, missing: bool) -> Seq<char> {
    if missing {
        "{}"@
    } else {
        frontmatter
    }
}

/// What is known of an evaluation once it is ready to be run.
pub ghost struct JobView {
    /// The compiled filter, as its text.
    pub filter: Seq<char>,
    /// The value that the filter is to be run on, as its JSON text.
    pub input: Seq<char>,
    /// Whether the expression is a mutation.
    pub mutation: bool,
    /// The body of the document.
    pub body: Seq<char>,
}

/// What `begin_document` gives for an outcome of `prepare`: the job with
/// the filter and the value, or the error.
pub open spec fn job_of(
    outcome: Result<(Seq<char>, Seq<char>), Seq<char>>,
    mutation: bool,
    body: Seq<char>,
) -> Result<JobView, ErrorView> {
    match outcome {
        Ok(pair) => Ok(JobView { filter: pair.0, input: pair.1, mutation, body }),
        Err(m) => Err(ErrorView::Query(m)),
    }
}

/// Whether `r` is what `begin` may give for an expression and what
/// extraction made of the document.
///
/// A failed extraction is the result. Else the evaluation is made ready on
/// the block of the document, or on the empty mapping where the document was
/// taken as one without frontmatter; the job holds the classification of the
/// expression and the body of the document.
pub open spec fn begin_allows(
    expr: Seq<char>,
    document: Result<DocumentView, ParseFailure>,
    missing: bool,
    r: Result<JobView, ErrorView>,
) -> bool {
    match document {
        Err(f) => r == Err::<JobView, ErrorView>(ErrorView::Parse(f.message())),
        Ok(d) => exists|outcome: Result<(Seq<char>, Seq<char>), Seq<char>>|
            #[trigger] prepare_allows(
                expr,
                evaluation_input_spec(d.frontmatter, missing),
                outcome,
            ) && r == job_of(outcome, is_mutation_spec(expr), d.body),
    }
}

/// The view of an output or its error.
pub open spec fn result_view(r: Result<String, Error>) -> Result<Seq<char>, ErrorView> {
    match r {
        Ok(text) => Ok(text@),
        Err(e) => Err(e@),
    }
}

/// Renders a value as text: a string as it is, without quotes or escapes,
/// and any other value as indented JSON.
pub fn format_output(value: &serde_json::Value) -> (r: String)
    ensures
        r@ == format_spec(json_text(*value)),
{
    match string_of(value) {
        Some(s) => s,
        None => match pretty_of(value) {
            Some(p) => p,
            None => String::new(),
        },
    }
}

/// Renders the value that an expression gave: for a mutation, as the new
/// document, with the value as its block before `body`; for a query, as the
/// formatted value.
pub fn render(mutation: bool, body: &str, value: &serde_json::Value) -> (r: Result<String, Error>)
    ensures
        result_view(r) == render_spec(mutation, body@, json_text(*value)),
{
    if mutation {
        match json_to_yaml(value) {
            Ok(yaml) => Ok(reassemble(yaml.as_str(), body)),
            Err(e) => Err(Error::from(e)),
        }
    } else {
        Ok(format_output(value))
    }
}

/// An evaluation that is ready to be run: the compiled filter, the value it
/// is to be run on, and what is needed to render what it yields.
#[derive(Debug)]
pub struct Job {
    /// The compiled filter.
    pub filter: jaq_interpret::Filter,
    /// The value that the filter is to be run on.
    pub input: serde_json::Value,
    /// Whether the expression is a mutation.
    pub mutation: bool,
    /// The body of the document.
    pub body: String,
}

impl View for Job {
    type V = JobView;

    open spec fn view(&self) -> JobView {
        JobView {
            filter: filter_text(self.filter),
            input: json_text(self.input),
            mutation: self.mutation,
            body: self.body@,
        }
    }
}

/// The view of a job or its error.
pub open spec fn job_view(r: Result<Job, Error>) -> Result<JobView, ErrorView> {
    match r {
        Ok(job) => Ok(job@),
        Err(e) => Err(e@),
    }
}

/// The YAML text that is evaluated for a document: its block, and for a
/// document that was taken as one without frontmatter the empty mapping
/// `{}`.
pub fn evaluation_input<'a>(frontmatter: &'a str, missing: bool) -> (r: &'a str)
    ensures
        r@ == evaluation_input_spec(frontmatter@, missing),
{
    if missing {
        "{}"
    } else {
        frontmatter
    }
}

/// Makes the evaluation of an expression ready for a document that was
/// split already: classifies the expression, decodes the block, and parses
/// and compiles the expression. `missing` says whether the document was
/// taken as one without frontmatter.
pub fn begin_document(expr: &str, document: Document, missing: bool) -> (r: Result<Job, Error>)
    ensures
        begin_allows(expr@, Ok(document@), missing, job_view(r)),
{
    let mutation = is_mutation(expr);
    let prepared = prepare(expr, evaluation_input(document.frontmatter.as_str(), missing));
    assert(prepare_allows(
        expr@,
        evaluation_input_spec(document@.frontmatter, missing),
        prepare_view(prepared),
    ));
    let r = match prepared {
        Ok(evaluation) => Ok(
            Job { filter: evaluation.filter, input: evaluation.input, mutation, body: document.body },
        ),
        Err(e) => Err(Error::from(e)),
    };
    assert(job_view(r) == job_of(prepare_view(prepared), mutation, document@.body));
    r
}

/// Makes the evaluation of an expression ready for a whole document.
///
/// An error of extraction comes before any fault of the expression. Where
/// `init` is set, a document without frontmatter is taken as one with an
/// empty block before the whole text, and the expression is evaluated on the
/// empty mapping.
pub fn begin(expr: &str, markdown: &str, init: bool) -> (r: Result<Job, Error>)
    ensures
        begin_allows(
            expr@,
            document_spec(markdown@, init),
            is_missing(markdown@, init),
            job_view(r),
        ),
{
    match extract_with(markdown, init) {
        Ok(found) => begin_document(expr, found.0, found.1),
        Err(e) => Err(Error::from(e)),
    }
}

/// Makes the evaluation of an expression ready for a source that is read
/// line by line. The body is read only for a mutation.
///
/// Where `init` is set, a source without frontmatter is taken as one with an
/// empty block, and the expression is evaluated on the empty mapping.
pub fn begin_reader(expr: &str, source: &str, init: bool) -> (r: Result<Job, Error>)
    ensures
        begin_allows(
            expr@,
            read_spec(source@, is_mutation_spec(expr@), init),
            is_missing_line(source@, init),
            job_view(r),
        ),
{
    let need_body = is_mutation(expr);
    match extract_reader_with(source, need_body, init) {
        Ok(found) => begin_document(expr, found.0, found.1),
        Err(e) => Err(Error::from(e)),
    }
}

/// Concludes an evaluation from the first item that the run of the filter
/// yielded: a value is rendered, for a mutation as the document with the
/// value as its block before the untouched body, for a query as the
/// formatted value; an error of the engine, or no item, is an error.
pub fn conclude(mutation: bool, body: &str, first: Option<Result<serde_json::Value, String>>) -> (r:
    Result<String, Error>)
    ensures
        result_view(r) == conclude_spec(mutation, body@, first_result_spec(first_view(first))),
{
    match first_result(first) {
        Ok(value) => render(mutation, body, &value),
        Err(e) => Err(Error::from(e)),
    }
}

} // verus!
