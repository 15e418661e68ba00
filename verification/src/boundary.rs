//! The three operations the host asks for, each taking what the front end
//! and the renderer produced and giving the text the host receives.
//!
//! A rendering is a `Result`: the rendered text, or the message of the
//! error that stopped the renderer.

use vstd::prelude::*;
use crate::envelope::{
    envelope,
    envelope_text,
    lemma_envelope_is_no_failure,
    lemma_envelope_tells_errors,
};
use crate::failure::{failure_response, failure_text};

verus! {

/// Whether `response` is a failure object: the one for some message.
pub open spec fn is_failure(response: Seq<char>) -> bool {
    exists|message: Seq<char>| response == #[trigger] failure_text(message)
}

/// What a rendering reads as: its text, or its message.
pub open spec fn outcome(rendered: Result<String, String>) -> Result<Seq<char>, Seq<char>> {
    match rendered {
        Ok(text) => Ok(text@),
        Err(message) => Err(message@),
    }
}

/// The answer to a request for one tree: the rendered text as it is, or the
/// failure object for the renderer's message.
pub open spec fn tree_text(rendered: Result<String, String>) -> Seq<char> {
    match rendered {
        Ok(text) => text@,
        Err(message) => failure_text(message@),
    }
}

/// The answer to a request for a full run. Where all three renderings
/// succeeded it is the envelope around them, with the flag set exactly when
/// the list of diagnostics is not empty. Where one failed it is the failure
/// object for the first that did, in the order untyped tree, typed tree,
/// diagnostics, and nothing of the other two.
pub open spec fn compile_text(
    untyped: Result<String, String>,
    typed: Result<String, String>,
    errors: Result<String, String>,
    error_count: usize,
) -> Seq<char> {
    match (untyped, typed, errors) {
        (Ok(untyped_text), Ok(typed_text), Ok(errors_text)) => envelope_text(
            untyped_text@,
            typed_text@,
            errors_text@,
            error_count > 0,
        ),
        (Err(message), _, _) => failure_text(message@),
        (Ok(_), Err(message), _) => failure_text(message@),
        (Ok(_), Ok(_), Err(message)) => failure_text(message@),
    }
}

/// The rendered text as it is, or the failure object for the renderer's
/// message.
fn tree_or_failure(rendered: Result<String, String>) -> (response: String)
    ensures
        response@ == tree_text(rendered),
{
    match rendered {
        Ok(text) => text,
        Err(message) => failure_response(message.as_str()),
    }
}

/// Answers a parse request. `tree` is the rendering of the syntax tree that
/// the parser built, diagnostics included.
///
/// The host always gets the tree when there is one: the answer is the
/// rendered text, unchanged. Only where rendering itself failed is the
/// answer a failure object, which carries the renderer's message.
pub fn parse(tree: Result<String, String>) -> (response: String)
    ensures
        response@ == tree_text(tree),
{
    tree_or_failure(tree)
}

/// Answers a type-check request. `typed` is the rendering of the typed tree
/// that the type checker built from a fresh parse, diagnostics included.
///
/// The answer is the rendered text, unchanged, or a failure object where
/// rendering itself failed.
pub fn typecheck(typed: Result<String, String>) -> (response: String)
    ensures
        response@ == tree_text(typed),
{
    tree_or_failure(typed)
}

/// Answers a request for a full run. `untyped` and `typed` are the
/// renderings of the tree before and after checking, `errors` the rendering
/// of the type checker's diagnostics, and `error_count` how many diagnostics
/// that list holds.
///
/// Where all three renderings succeeded the answer is one envelope with all
/// four fields, and `hasErrors` is `true` exactly when the list of
/// diagnostics is not empty. Where a rendering failed the answer is a
/// failure object and no envelope: it carries the message of the first
/// rendering that failed, taken in the order of the parameters.
pub fn compile(
    untyped: Result<String, String>,
    typed: Result<String, String>,
    errors: Result<String, String>,
    error_count: usize,
) -> (response: String)
    ensures
        response@ == compile_text(untyped, typed, errors, error_count),
{
    match untyped {
        Err(message) => failure_response(message.as_str()),
        Ok(untyped_text) => match typed {
            Err(message) => failure_response(message.as_str()),
            Ok(typed_text) => match errors {
                Err(message) => failure_response(message.as_str()),
                Ok(errors_text) => envelope(
                    untyped_text.as_str(),
                    typed_text.as_str(),
                    errors_text.as_str(),
                    error_count != 0,
                ),
            },
        },
    }
}

/// Asking twice gives the same answer: two renderings that read the same
/// are answered with the same text, whether they succeeded or failed. This
/// holds of `parse` and of `typecheck`.
pub proof fn lemma_tree_answer_repeats(
    rendered: Result<String, String>,
    rendered_again: Result<String, String>,
)
    requires
        outcome(rendered) == outcome(rendered_again),
    ensures
        tree_text(rendered) == tree_text(rendered_again),
{
}

/// Asking for a full run twice gives the same answer: two runs whose
/// renderings read the same, and which agree on whether there were
/// diagnostics, are answered with the same text.
pub proof fn lemma_compile_repeats(
    untyped: Result<String, String>,
    typed: Result<String, String>,
    errors: Result<String, String>,
    error_count: usize,
    untyped_again: Result<String, String>,
    typed_again: Result<String, String>,
    errors_again: Result<String, String>,
    error_count_again: usize,
)
    requires
        outcome(untyped) == outcome(untyped_again),
        outcome(typed) == outcome(typed_again),
        outcome(errors) == outcome(errors_again),
        error_count > 0 <==> error_count_again > 0,
    ensures
        compile_text(untyped, typed, errors, error_count) == compile_text(
            untyped_again,
            typed_again,
            errors_again,
            error_count_again,
        ),
{
}

/// A full run is answered with a failure object exactly when one of its
/// renderings failed. A run whose renderings all succeeded never is.
pub proof fn lemma_compile_fails_iff_a_rendering_failed(
    untyped: Result<String, String>,
    typed: Result<String, String>,
    errors: Result<String, String>,
    error_count: usize,
)
    ensures
        is_failure(compile_text(untyped, typed, errors, error_count)) <==> (untyped is Err
            || typed is Err || errors is Err),
{
    if let (Ok(untyped_text), Ok(typed_text), Ok(errors_text)) = (untyped, typed, errors) {
        assert forall|message: Seq<char>|
            compile_text(untyped, typed, errors, error_count) != #[trigger] failure_text(
                message,
            ) by {
            lemma_envelope_is_no_failure(
                untyped_text@,
                typed_text@,
                errors_text@,
                error_count > 0,
                message,
            );
        }
    }
}

/// Where every rendering succeeded, a full run reports `"hasErrors":false`
/// exactly when the type checker left no diagnostics, and
/// `"hasErrors":true` exactly when it left some.
pub proof fn lemma_compile_reports_errors_iff_any(
    untyped: Result<String, String>,
    typed: Result<String, String>,
    errors: Result<String, String>,
    error_count: usize,
)
    requires
        untyped is Ok,
        typed is Ok,
        errors is Ok,
    ensures
        "\"hasErrors\":false}"@.is_suffix_of(compile_text(untyped, typed, errors, error_count))
            <==> error_count == 0,
        "\"hasErrors\":true}"@.is_suffix_of(compile_text(untyped, typed, errors, error_count))
            <==> error_count > 0,
{
    lemma_envelope_tells_errors(
        (untyped->Ok_0)@,
        (typed->Ok_0)@,
        (errors->Ok_0)@,
        error_count > 0,
    );
}

} // verus!
