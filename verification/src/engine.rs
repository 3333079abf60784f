//! The filter engine, which is an outside crate: the values it hands over,
//! and what this library relies on of each call.
//!
//! Expressions are parsed and compiled here. A compiled filter is not run
//! here: a filter can make the engine panic, as a remainder of integers that
//! overflows does, and a filter need not come to an end, so no contract can
//! be given for its run. Whoever uses the library runs the filter and hands
//! over the first item that it yields.
//!
//! The parser works by recursion: on an expression that is nested thousands
//! of levels deep, it can exhaust the stack.

// The engine's error type, under a name of its own beside this library's `Error`.
use jaq_interpret::Error as EngineError;
use vstd::prelude::*;

verus! {

/// A value of the engine. No signature here holds it: Verus asks for it
/// with the compiled filter, which is a filter on such values.
#[verifier::external_type_specification]
#[verifier::external_body]
pub struct ExVal(jaq_interpret::Val);

/// An error of the engine. No signature here holds it: Verus asks for it
/// with `Val`, whose arithmetic gives it.
#[verifier::external_type_specification]
#[verifier::external_body]
#[verifier::reject_recursive_types(V)]
pub struct ExEngineError<V>(EngineError<V>);

/// A compiled filter of the engine, ready to be run.
#[verifier::external_type_specification]
#[verifier::external_body]
#[verifier::reject_recursive_types(V)]
pub struct ExFilter<V>(jaq_interpret::Filter<V>);

/// The syntax of a filter.
#[verifier::external_type_specification]
#[verifier::external_body]
#[verifier::reject_recursive_types(C)]
#[verifier::reject_recursive_types(V)]
#[verifier::reject_recursive_types(Num)]
pub struct ExSyntax<C, V, Num>(jaq_syn::filter::Filter<C, V, Num>);

/// The syntax tree of an expression: its definitions and its main filter.
#[verifier::external_type_specification]
#[verifier::external_body]
#[verifier::reject_recursive_types(F)]
pub struct ExMain<F>(jaq_syn::Main<F>);

/// What a syntax tree holds, as text. A tree is opaque here; what the calls
/// below give for it is stated over this text.
pub uninterp spec fn syntax_text(main: jaq_syn::Main) -> Seq<char>;

/// What `jaq_parse::parse` makes of an expression with the parser
/// `jaq_parse::main()`: the syntax tree, as its text, where it gives one,
/// and the number of errors that it reports.
pub uninterp spec fn parse_outcome(expr: Seq<char>) -> (Option<Seq<char>>, nat);

/// What a compiled filter holds, as text. A filter is opaque here; what
/// the calls below give for it is stated over this text.
pub uninterp spec fn filter_text(filter: jaq_interpret::Filter) -> Seq<char>;

/// What `jaq_interpret::ParseCtx::compile` makes of the syntax tree with the
/// text `syntax`, in a context that holds the filters of `jaq_core::core()`
/// and the definitions of `jaq_std::std()`: the filter, as its text, and the
/// number of errors that it leaves in the context.
pub uninterp spec fn compiled(syntax: Seq<char>) -> (Seq<char>, nat);

/// The text of a syntax tree, where there is one.
pub open spec fn syntax_view(tree: Option<jaq_syn::Main>) -> Option<Seq<char>> {
    match tree {
        Some(main) => Some(syntax_text(main)),
        None => None,
    }
}

/// Parses an expression with `jaq_parse::parse` and the parser
/// `jaq_parse::main()`. Each error comes back as its `Debug` text.
///
/// Relied on, not proved: what the syntax tree holds and the number of
/// errors depend on the expression alone. Nothing is said of the texts: an
/// error lists what was expected in the order in which a hash set is walked.
#[verifier::external_body]
pub(crate) fn parse_filter(expr: &str) -> (r: (Option<jaq_syn::Main>, Vec<String>))
    ensures
        (syntax_view(r.0), r.1@.len()) == parse_outcome(expr@),
{
    let (main, errors) = jaq_parse::parse(expr, jaq_parse::main());
    (main, errors.iter().map(|e| format!("{:?}", e)).collect())
}

/// Compiles a syntax tree with `jaq_interpret::ParseCtx::compile`, in a new
/// context to which the filters of `jaq_core::core()` and the definitions
/// of `jaq_std::std()` were added. The number is that of the errors that
/// the context holds afterwards.
///
/// Relied on, not proved: what the filter holds and that number depend on
/// what the syntax tree holds alone.
#[verifier::external_body]
pub(crate) fn compile_filter(main: jaq_syn::Main) -> (r: (jaq_interpret::Filter, usize))
    ensures
        (filter_text(r.0), r.1 as nat) == compiled(syntax_text(main)),
{
    let mut ctx = jaq_interpret::ParseCtx::new(Vec::new());
    ctx.insert_natives(jaq_core::core());
    ctx.insert_defs(jaq_std::std());
    let filter = ctx.compile(main);
    (filter, ctx.errs.len())
}

} // verus!
