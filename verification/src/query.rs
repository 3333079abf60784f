//! Classifying a filter expression, and what is decided before and after
//! the engine runs it on a frontmatter block.

use crate::codec::{decode_yaml, encode_yaml, json_text, yaml_decoded, yaml_encoded};
use crate::engine::{compile_filter, compiled, filter_text, parse_filter, parse_outcome};
use crate::text::{
    chars_of, contains, find_from, is_whitespace, is_whitespace_char,
    lemma_first_occurrence_is_least,
};
use vstd::prelude::*;
use vstd::string::*;

verus! {

/// An evaluation error, with its message.
#[derive(Debug)]
pub struct QueryError(pub String);

impl View for QueryError {
    type V = Seq<char>;

    open spec fn view(&self) -> Seq<char> {
        self.0@
    }
}

impl QueryError {
    /// The message of the error.
    pub fn to_string(&self) -> (r: String)
        ensures
            r@ == self@,
    {
        self.0.clone()
    }
}

/// `s` without its whitespace characters.
pub open spec fn without_whitespace(s: Seq<char>) -> Seq<char>
    decreases s.len(),
{
    if s.len() == 0 {
        s
    } else if is_whitespace(s.last()) {
        without_whitespace(s.drop_last())
    } else {
        without_whitespace(s.drop_last()).push(s.last())
    }
}

/// `s` with every `==` taken out, from left to right.
pub open spec fn without_equality_tests(s: Seq<char>) -> Seq<char>
    decreases s.len(),
{
    if s.len() >= 2 && s[0] == '=' && s[1] == '=' {
        without_equality_tests(s.skip(2))
    } else if s.len() >= 1 {
        seq![s[0]] + without_equality_tests(s.skip(1))
    } else {
        s
    }
}

/// Whether an `=` is left in `s` once every `==` is taken out.
pub open spec fn has_bare_assignment(s: Seq<char>) -> bool {
    without_equality_tests(s).contains('=')
}

/// Whether `s` holds one of the compound assignment operators.
pub open spec fn has_compound_assignment(s: Seq<char>) -> bool {
    ||| contains(s, "|="@)
    ||| contains(s, "+="@)
    ||| contains(s, "-="@)
    ||| contains(s, "*="@)
    ||| contains(s, "/="@)
    ||| contains(s, "%="@)
    ||| contains(s, "//="@)
}

/// Whether `s` holds a call of a builtin that changes its input.
pub open spec fn has_mutating_call(s: Seq<char>) -> bool {
    ||| contains(s, "del("@)
    ||| contains(s, "delpaths("@)
    ||| contains(s, "setpath("@)
}

/// Whether an expression is classified as a mutation: a compound assignment
/// or a call of a mutating builtin stands in it once whitespace is taken
/// out, or an `=` is left in it once every `==` is taken out.
pub open spec fn is_mutation_spec(expr: Seq<char>) -> bool {
    let stripped = without_whitespace(expr);
    ||| has_compound_assignment(stripped)
    ||| has_bare_assignment(expr)
    ||| has_mutating_call(stripped)
}

/// In a text that begins with `==`, taking the pair away changes nothing of
/// what is left; elsewhere the first character stays.
proof fn lemma_bare_assignment_step(s: Seq<char>)
    requires
        s.len() >= 1,
    ensures
        s.len() >= 2 && s[0] == '=' && s[1] == '=' ==> has_bare_assignment(s)
            == has_bare_assignment(s.skip(2)),
        !(s.len() >= 2 && s[0] == '=' && s[1] == '=') ==> has_bare_assignment(s) == (s[0] == '='
            || has_bare_assignment(s.skip(1))),
{
    if !(s.len() >= 2 && s[0] == '=' && s[1] == '=') {
        let rest = without_equality_tests(s.skip(1));
        let all = seq![s[0]] + rest;
        assert(without_equality_tests(s) == all);
        if s[0] == '=' || rest.contains('=') {
            if s[0] == '=' {
                assert(all[0] == '=');
            } else {
                let k = choose|k: int| 0 <= k < rest.len() && rest[k] == '=';
                assert(all[k + 1] == '=');
            }
        }
        if all.contains('=') {
            let k = choose|k: int| 0 <= k < all.len() && all[k] == '=';
            if k > 0 {
                assert(rest[k - 1] == '=');
            }
        }
    }
}

/// The characters of `text` that are not whitespace.
fn strip_whitespace(text: &Vec<char>) -> (out: Vec<char>)
    ensures
        out@ == without_whitespace(text@),
{
    let mut out: Vec<char> = Vec::new();
    let mut i: usize = 0;
    while i < text.len()
        invariant
            i <= text.len(),
            out@ == without_whitespace(text@.take(i as int)),
        decreases text.len() - i,
    {
        assert(text@.take(i + 1).drop_last() =~= text@.take(i as int));
        if !is_whitespace_char(text[i]) {
            out.push(text[i]);
        }
        i += 1;
    }
    assert(text@.take(i as int) =~= text@);
    out
}

/// Scans for an `=` that is not half of an `==`.
fn scan_bare_assignment(text: &Vec<char>) -> (r: bool)
    ensures
        r == has_bare_assignment(text@),
{
    let len = text.len();
    let mut i: usize = 0;
    assert(text@.skip(0) =~= text@);
    while i < len
        invariant
            i <= len == text.len(),
            has_bare_assignment(text@) == has_bare_assignment(text@.skip(i as int)),
        decreases len - i,
    {
        let ghost tail = text@.skip(i as int);
        proof {
            lemma_bare_assignment_step(tail);
        }
        if text[i] == '=' {
            if len - i >= 2 && text[i + 1] == '=' {
                assert(tail.skip(2) =~= text@.skip(i + 2));
                i += 2;
            } else {
                return true;
            }
        } else {
            assert(tail.skip(1) =~= text@.skip(i + 1));
            i += 1;
        }
    }
    false
}

/// Tests whether `pattern` stands anywhere in `text`.
fn holds(text: &Vec<char>, pattern: &str) -> (r: bool)
    ensures
        r == contains(text@, pattern@),
{
    let needle = chars_of(pattern);
    assert(text@.skip(0) =~= text@);
    proof {
        lemma_first_occurrence_is_least(text@, needle@);
    }
    find_from(text, &needle, 0).is_some()
}

/// Classifies an expression: `true` where evaluating it is meant to change
/// the document, `false` where it only reports a value.
pub fn is_mutation(expr: &str) -> (r: bool)
    ensures
        r == is_mutation_spec(expr@),
{
    let text = chars_of(expr);
    let stripped = strip_whitespace(&text);
    if holds(&stripped, "|=") || holds(&stripped, "+=") || holds(&stripped, "-=") || holds(
        &stripped,
        "*=",
    ) || holds(&stripped, "/=") || holds(&stripped, "%=") || holds(&stripped, "//=") {
        return true;
    }
    if scan_bare_assignment(&text) {
        return true;
    }
    holds(&stripped, "del(") || holds(&stripped, "delpaths(") || holds(&stripped, "setpath(")
}

/// The decimal digit for `d`.
pub open spec fn digit(d: nat) -> char {
    if d == 0 {
        '0'
    } else if d == 1 {
        '1'
    } else if d == 2 {
        '2'
    } else if d == 3 {
        '3'
    } else if d == 4 {
        '4'
    } else if d == 5 {
        '5'
    } else if d == 6 {
        '6'
    } else if d == 7 {
        '7'
    } else if d == 8 {
        '8'
    } else {
        '9'
    }
}

/// `n` written in decimal digits.
pub open spec fn decimal(n: nat) -> Seq<char>
    decreases n,
{
    if n < 10 {
        seq![digit(n)]
    } else {
        decimal(n / 10).push(digit(n % 10))
    }
}

/// The texts of `items` with `, ` between them.
pub open spec fn joined(items: Seq<Seq<char>>) -> Seq<char>
    decreases items.len(),
{
    if items.len() == 0 {
        Seq::empty()
    } else if items.len() == 1 {
        items[0]
    } else {
        joined(items.drop_last()) + ", "@ + items.last()
    }
}

/// The texts of `items` as a list in square brackets.
pub open spec fn list_text(items: Seq<Seq<char>>) -> Seq<char> {
    "["@ + joined(items) + "]"@
}

/// What `syntax_checked` makes of a parse: the error that lists the parse
/// errors where there are any, else the error for a missing syntax tree,
/// else the tree.
pub open spec fn syntax_checked_spec<T>(tree: Option<T>, errors: Seq<Seq<char>>) -> Result<
    T,
    Seq<char>,
> {
    if errors.len() > 0 {
        Err("parse error: "@ + list_text(errors))
    } else {
        match tree {
            None => Err("parse failed"@),
            Some(t) => Ok(t),
        }
    }
}

/// What `compile_checked` makes of a number of compile errors.
pub open spec fn compile_checked_spec(failed: nat) -> Result<(), Seq<char>> {
    if failed > 0 {
        Err("compile error: "@ + decimal(failed) + " errors"@)
    } else {
        Ok(())
    }
}

/// What `first_result` makes of the first item that a filter yields: the
/// value, the error for the engine's error, or the error for no output.
/// Values stand here as their JSON text.
pub open spec fn first_result_spec(first: Option<Result<Seq<char>, Seq<char>>>) -> Result<
    Seq<char>,
    Seq<char>,
> {
    match first {
        Some(Ok(json)) => Ok(json),
        Some(Err(m)) => Err("runtime error: "@ + m),
        None => Err("no output"@),
    }
}

/// What `yaml_to_json` makes of a YAML text: the value, as its JSON text, or
/// the message of the error.
pub open spec fn yaml_to_json_spec(yaml: Seq<char>) -> Result<Seq<char>, Seq<char>> {
    match yaml_decoded(yaml) {
        Ok(v) => Ok(v),
        Err(m) => Err("invalid yaml: "@ + m),
    }
}

/// What `json_to_yaml` makes of the value with the JSON text `json`: the
/// YAML text, or the message of the error.
pub open spec fn json_to_yaml_spec(json: Seq<char>) -> Result<Seq<char>, Seq<char>> {
    match yaml_encoded(json) {
        Ok(t) => Ok(t),
        Err(m) => Err("yaml serialization failed: "@ + m),
    }
}

/// Whether `outcome` is what `compile` may give for an expression: the
/// compiled filter, as its text, or the message of an error.
///
/// The expression must parse without errors and to a syntax tree, and the
/// tree must compile without errors; each failure has its message. Of the
/// parse errors only the number is fixed, not their texts.
pub open spec fn compile_allows(expr: Seq<char>, outcome: Result<Seq<char>, Seq<char>>) -> bool {
    let (tree, count) = parse_outcome(expr);
    if count > 0 {
        exists|texts: Seq<Seq<char>>|
            texts.len() == count && outcome == Err::<Seq<char>, Seq<char>>(
                #[trigger] syntax_checked_spec(tree, texts)->Err_0,
            )
    } else if tree is None {
        outcome == Err::<Seq<char>, Seq<char>>("parse failed"@)
    } else if compiled(tree->0).1 > 0 {
        outcome == Err::<Seq<char>, Seq<char>>(compile_checked_spec(compiled(tree->0).1)->Err_0)
    } else {
        outcome == Ok::<Seq<char>, Seq<char>>(compiled(tree->0).0)
    }
}

/// Whether `outcome` is what `prepare` may give for an expression and a
/// YAML text: the compiled filter and the decoded value, as their texts, or
/// the message of an error. A YAML text that does not decode comes before
/// any fault of the expression.
pub open spec fn prepare_allows(
    expr: Seq<char>,
    yaml: Seq<char>,
    outcome: Result<(Seq<char>, Seq<char>), Seq<char>>,
) -> bool {
    match yaml_to_json_spec(yaml) {
        Err(m) => outcome == Err::<(Seq<char>, Seq<char>), Seq<char>>(m),
        Ok(json) => match outcome {
            Ok(pair) => compile_allows(expr, Ok(pair.0)) && pair.1 == json,
            Err(m) => compile_allows(expr, Err(m)),
        },
    }
}

/// The view of an evaluated value or its error: the value, as its JSON
/// text, or the message of the error.
pub open spec fn outcome_view(r: Result<serde_json::Value, QueryError>) -> Result<
    Seq<char>,
    Seq<char>,
> {
    match r {
        Ok(v) => Ok(json_text(v)),
        Err(e) => Err(e@),
    }
}

/// A compiled filter and the value it is to be run on.
#[derive(Debug)]
pub struct Evaluation {
    /// The filter, compiled from the expression.
    pub filter: jaq_interpret::Filter,
    /// The value that the YAML text decoded to.
    pub input: serde_json::Value,
}

/// The view of a compiled filter or its error.
pub open spec fn compile_view(r: Result<jaq_interpret::Filter, QueryError>) -> Result<
    Seq<char>,
    Seq<char>,
> {
    match r {
        Ok(f) => Ok(filter_text(f)),
        Err(e) => Err(e@),
    }
}

/// The view of an evaluation that is ready to be run, or its error.
pub open spec fn prepare_view(r: Result<Evaluation, QueryError>) -> Result<
    (Seq<char>, Seq<char>),
    Seq<char>,
> {
    match r {
        Ok(e) => Ok((filter_text(e.filter), json_text(e.input))),
        Err(e) => Err(e@),
    }
}

/// The text of one decimal digit.
fn digit_text(d: usize) -> (r: &'static str)
    requires
        d < 10,
    ensures
        r@ == seq![digit(d as nat)],
{
    proof {
        reveal_strlit("0");
        reveal_strlit("1");
        reveal_strlit("2");
        reveal_strlit("3");
        reveal_strlit("4");
        reveal_strlit("5");
        reveal_strlit("6");
        reveal_strlit("7");
        reveal_strlit("8");
        reveal_strlit("9");
    }
    let r = if d == 0 {
        "0"
    } else if d == 1 {
        "1"
    } else if d == 2 {
        "2"
    } else if d == 3 {
        "3"
    } else if d == 4 {
        "4"
    } else if d == 5 {
        "5"
    } else if d == 6 {
        "6"
    } else if d == 7 {
        "7"
    } else if d == 8 {
        "8"
    } else {
        "9"
    };
    assert(r@ =~= seq![digit(d as nat)]);
    r
}

/// Writes a number in decimal digits.
pub fn decimal_text(n: usize) -> (r: String)
    ensures
        r@ == decimal(n as nat),
    decreases n,
{
    if n < 10 {
        digit_text(n).to_owned()
    } else {
        let mut r = decimal_text(n / 10);
        r.append(digit_text(n % 10));
        assert(r@ =~= decimal(n as nat));
        r
    }
}

/// Writes texts as a list in square brackets, with `, ` between them.
pub fn list_of(items: &Vec<String>) -> (r: String)
    ensures
        r@ == list_text(items.deep_view()),
{
    let ghost texts = items.deep_view();
    let mut r = "[".to_owned();
    let mut i: usize = 0;
    while i < items.len()
        invariant
            i <= items.len(),
            texts == items.deep_view(),
            r@ == "["@ + joined(texts.take(i as int)),
        decreases items.len() - i,
    {
        let ghost before = texts.take(i as int);
        let ghost now = texts.take(i + 1);
        assert(now.drop_last() =~= before);
        assert(now.last() == items[i as int]@);
        if i > 0 {
            r.append(", ");
        }
        r.append(items[i].as_str());
        assert(r@ =~= "["@ + joined(now));
        i += 1;
    }
    assert(texts.take(i as int) =~= texts);
    r.append("]");
    r
}

/// Decodes a YAML text into a JSON value.
pub fn yaml_to_json(yaml: &str) -> (r: Result<serde_json::Value, QueryError>)
    ensures
        outcome_view(r) == yaml_to_json_spec(yaml@),
{
    match decode_yaml(yaml) {
        Ok(v) => Ok(v),
        Err(m) => {
            let mut text = "invalid yaml: ".to_owned();
            text.append(m.as_str());
            Err(QueryError(text))
        },
    }
}

/// Encodes a JSON value as YAML text.
pub fn json_to_yaml(value: &serde_json::Value) -> (r: Result<String, QueryError>)
    ensures
        match json_to_yaml_spec(json_text(*value)) {
            Ok(t) => r matches Ok(s) && s@ == t,
            Err(m) => r matches Err(e) && e@ == m,
        },
{
    match encode_yaml(value) {
        Ok(t) => Ok(t),
        Err(m) => {
            let mut text = "yaml serialization failed: ".to_owned();
            text.append(m.as_str());
            Err(QueryError(text))
        },
    }
}

/// Decides on a parse: the parse errors come first, then a missing syntax
/// tree.
pub fn syntax_checked<T>(tree: Option<T>, errors: &Vec<String>) -> (r: Result<T, QueryError>)
    ensures
        match syntax_checked_spec(tree, errors.deep_view()) {
            Ok(t) => r matches Ok(got) && got == t,
            Err(m) => r matches Err(e) && e@ == m,
        },
{
    assert(errors.deep_view().len() == errors.len());
    if errors.len() > 0 {
        let mut text = "parse error: ".to_owned();
        text.append(list_of(errors).as_str());
        return Err(QueryError(text));
    }
    match tree {
        None => Err(QueryError("parse failed".to_owned())),
        Some(t) => Ok(t),
    }
}

/// Decides on a compilation by the number of its errors.
pub fn compile_checked(failed: usize) -> (r: Result<(), QueryError>)
    ensures
        match compile_checked_spec(failed as nat) {
            Ok(_) => r is Ok,
            Err(m) => r matches Err(e) && e@ == m,
        },
{
    if failed > 0 {
        let mut text = "compile error: ".to_owned();
        text.append(decimal_text(failed).as_str());
        text.append(" errors");
        Err(QueryError(text))
    } else {
        Ok(())
    }
}

/// The view of the first item that a filter yields.
pub open spec fn first_view(first: Option<Result<serde_json::Value, String>>) -> Option<
    Result<Seq<char>, Seq<char>>,
> {
    match first {
        Some(Ok(v)) => Some(Ok(json_text(v))),
        Some(Err(m)) => Some(Err(m@)),
        None => None,
    }
}

/// Decides on the first item that a filter yields: a value is the result,
/// an error of the engine is an error of the run with the engine's text, and
/// a filter that yields nothing is an error. What the filter would yield
/// after the first item is never asked for.
pub fn first_result(first: Option<Result<serde_json::Value, String>>) -> (r: Result<
    serde_json::Value,
    QueryError,
>)
    ensures
        outcome_view(r) == first_result_spec(first_view(first)),
{
    match first {
        Some(Ok(v)) => Ok(v),
        Some(Err(m)) => {
            let mut text = "runtime error: ".to_owned();
            text.append(m.as_str());
            Err(QueryError(text))
        },
        None => Err(QueryError("no output".to_owned())),
    }
}

/// Parses and compiles an expression.
pub fn compile(expr: &str) -> (r: Result<jaq_interpret::Filter, QueryError>)
    ensures
        compile_allows(expr@, compile_view(r)),
{
    let (tree, errors) = parse_filter(expr);
    assert(errors.deep_view().len() == errors.len());
    let main = match syntax_checked(tree, &errors) {
        Ok(m) => m,
        Err(e) => {
            return Err(e);
        },
    };
    let (filter, failed) = compile_filter(main);
    match compile_checked(failed) {
        Ok(_) => Ok(filter),
        Err(e) => Err(e),
    }
}

/// Makes an evaluation ready: decodes the YAML text, then parses and
/// compiles the expression. The filter is not run here; `first_result`
/// decides on the first item that its run yields.
pub fn prepare(expr: &str, yaml: &str) -> (r: Result<Evaluation, QueryError>)
    ensures
        prepare_allows(expr@, yaml@, prepare_view(r)),
{
    let input = match yaml_to_json(yaml) {
        Ok(v) => v,
        Err(e) => {
            return Err(e);
        },
    };
    match compile(expr) {
        Ok(filter) => Ok(Evaluation { filter, input }),
        Err(e) => Err(e),
    }
}

} // verus!
