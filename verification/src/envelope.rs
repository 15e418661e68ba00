//! The envelope that answers a full run: both trees, the diagnostics and
//! the flag that says whether there were any.

use vstd::prelude::*;
use vstd::string::*;
use crate::failure::failure_text;

verus! {

/// How a flag is written: `true` or `false`.
pub open spec fn flag_text(flag: bool) -> Seq<char> {
    if flag {
        "true"@
    } else {
        "false"@
    }
}

/// The text of the envelope, field by field in this order: `untypedAst`,
/// `typedAst`, `errors`, `hasErrors`. The three texts are set in as they
/// are; the flag is written by [`flag_text`].
pub open spec fn envelope_text(
    untyped: Seq<char>,
    typed: Seq<char>,
    errors: Seq<char>,
    has_errors: bool,
) -> Seq<char> {
    "{\"untypedAst\":"@ + untyped + ",\"typedAst\":"@ + typed + ",\"errors\":"@ + errors
        + ",\"hasErrors\":"@ + flag_text(has_errors) + "}"@
}

/// Writes a flag as `true` or `false`.
pub fn flag_str(flag: bool) -> (text: &'static str)
    ensures
        text@ == flag_text(flag),
{
    if flag {
        "true"
    } else {
        "false"
    }
}

/// Builds the envelope around the rendered untyped tree, the rendered typed
/// tree and the rendered diagnostics.
pub fn envelope(untyped: &str, typed: &str, errors: &str, has_errors: bool) -> (response: String)
    ensures
        response@ == envelope_text(untyped@, typed@, errors@, has_errors),
{
    let mut response = String::from_str("{\"untypedAst\":");
    response.append(untyped);
    response.append(",\"typedAst\":");
    response.append(typed);
    response.append(",\"errors\":");
    response.append(errors);
    response.append(",\"hasErrors\":");
    response.append(flag_str(has_errors));
    response.append("}");
    response
}

/// The envelope tells whether there were diagnostics: it ends in
/// `"hasErrors":false}` exactly when it was built for a run without any,
/// and in `"hasErrors":true}` exactly when it was built for a run with some.
pub proof fn lemma_envelope_tells_errors(
    untyped: Seq<char>,
    typed: Seq<char>,
    errors: Seq<char>,
    has_errors: bool,
)
    ensures
        "\"hasErrors\":false}"@.is_suffix_of(envelope_text(untyped, typed, errors, has_errors))
            <==> !has_errors,
        "\"hasErrors\":true}"@.is_suffix_of(envelope_text(untyped, typed, errors, has_errors))
            <==> has_errors,
{
    reveal_strlit(",\"hasErrors\":");
    reveal_strlit("true");
    reveal_strlit("false");
    reveal_strlit("}");
    reveal_strlit("\"hasErrors\":false}");
    reveal_strlit("\"hasErrors\":true}");
    let head = "{\"untypedAst\":"@ + untyped + ",\"typedAst\":"@ + typed + ",\"errors\":"@
        + errors;
    let whole = envelope_text(untyped, typed, errors, has_errors);
    let clean = "\"hasErrors\":false}"@;
    let faulty = "\"hasErrors\":true}"@;
    assert(whole == head + ",\"hasErrors\":"@ + flag_text(has_errors) + "}"@);
    if has_errors {
        assert(whole.len() == head.len() + 18);
        assert(whole.subrange(whole.len() - 17, whole.len() as int) =~= faulty);
        assert(whole.subrange(whole.len() - 18, whole.len() as int)[0] == ',');
    } else {
        assert(whole.len() == head.len() + 19);
        assert(whole.subrange(whole.len() - 18, whole.len() as int) =~= clean);
        assert(whole.subrange(whole.len() - 17, whole.len() as int)[0] == 'h');
    }
}

/// No envelope reads as a failure object: the two differ in the name of
/// their first field, whatever they carry.
pub proof fn lemma_envelope_is_no_failure(
    untyped: Seq<char>,
    typed: Seq<char>,
    errors: Seq<char>,
    has_errors: bool,
    message: Seq<char>,
)
    ensures
        envelope_text(untyped, typed, errors, has_errors) != failure_text(message),
{
    reveal_strlit("{\"untypedAst\":");
    reveal_strlit("{\"error\":\"Serialization failed: ");
    assert(envelope_text(untyped, typed, errors, has_errors)[2] == 'u');
    assert(failure_text(message)[2] == 'e');
}

} // verus!
