//! The structured failure that stands in for a result that could not be
//! rendered.

use vstd::prelude::*;
use vstd::string::*;
use crate::escape::{
    escaped,
    is_string_body,
    lemma_escaped_is_string_body,
    lemma_escaped_tells_texts_apart,
    lemma_plain_text_is_string_body,
    lemma_string_value_of_escaped,
    lemma_string_value_of_plain_text,
    lemma_string_body_concat,
    push_escaped,
    string_value,
};

verus! {

/// The text of the failure object that carries `message`: a JSON object
/// whose one field, `error`, is the string `Serialization failed: ` followed
/// by the message. The message is escaped as [`escaped`] says, so that a
/// quote or a line break inside it cannot end the string early.
pub open spec fn failure_text(message: Seq<char>) -> Seq<char> {
    "{\"error\":\"Serialization failed: "@ + escaped(message) + "\"}"@
}

/// What stands between the quotes of the failure object's one string.
pub open spec fn failure_body(message: Seq<char>) -> Seq<char> {
    "Serialization failed: "@ + escaped(message)
}

/// Builds the failure object for `message`.
pub fn failure_response(message: &str) -> (response: String)
    ensures
        response@ == failure_text(message@),
{
    let mut response = String::from_str("{\"error\":\"Serialization failed: ");
    push_escaped(&mut response, message);
    response.append("\"}");
    response
}

/// A failure object is well formed whatever the message holds: it is
/// `{"error":"`, then a string body, then `"}`.
pub proof fn lemma_failure_is_json_object(message: Seq<char>)
    ensures
        failure_text(message) == "{\"error\":\""@ + failure_body(message) + "\"}"@,
        is_string_body(failure_body(message)),
{
    reveal_strlit("{\"error\":\"Serialization failed: ");
    reveal_strlit("{\"error\":\"");
    reveal_strlit("Serialization failed: ");
    let opening = "{\"error\":\""@;
    let words = "Serialization failed: "@;
    assert("{\"error\":\"Serialization failed: "@ =~= opening + words);
    assert(failure_text(message) =~= opening + failure_body(message) + "\"}"@);
    lemma_plain_text_is_string_body(words);
    lemma_escaped_is_string_body(message);
    lemma_string_body_concat(words, escaped(message));
}

/// The string in a failure object reads as `Serialization failed: `
/// followed by the message, whatever the message holds.
pub proof fn lemma_failure_carries_the_message(message: Seq<char>)
    ensures
        string_value(failure_body(message)) == "Serialization failed: "@ + message,
{
    reveal_strlit("Serialization failed: ");
    lemma_string_value_of_plain_text("Serialization failed: "@, escaped(message));
    lemma_string_value_of_escaped(message);
}

/// A failure object carries its message whole: two failure objects that
/// read the same were built for the same message.
pub proof fn lemma_failure_tells_messages_apart(message: Seq<char>, other: Seq<char>)
    requires
        failure_text(message) == failure_text(other),
    ensures
        message == other,
{
    let opening = "{\"error\":\"Serialization failed: "@;
    let closing = "\"}"@;
    let whole = failure_text(message);
    assert(escaped(message) =~= whole.subrange(
        opening.len() as int,
        whole.len() - closing.len(),
    ));
    assert(escaped(other) =~= whole.subrange(
        opening.len() as int,
        whole.len() - closing.len(),
    ));
    lemma_escaped_tells_texts_apart(message, other);
}

} // verus!
