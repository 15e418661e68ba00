//! Writing a text so that it can stand between the quotes of a JSON string.

use vstd::prelude::*;
use vstd::std_specs::iter::IteratorSpec;

verus! {

/// `String::push`, which std documents as appending the given char to the
/// end of the string.
pub assume_specification[ String::push ](text: &mut String, ch: char)
    ensures
        final(text)@ == old(text)@.push(ch),
;

/// The lower-case hexadecimal digit for a value below sixteen.
pub open spec fn hex_digit(value: u32) -> char {
    seq!['0', '1', '2', '3', '4', '5', '6', '7', '8', '9', 'a', 'b', 'c', 'd', 'e', 'f'][value as int]
}

/// Whether a char may stand for itself inside a JSON string: every char but
/// the double quote, the backslash and the control characters below U+0020.
pub open spec fn is_plain(c: char) -> bool {
    c != '"' && c != '\\' && c as u32 >= 0x20
}

/// How one char is written inside a JSON string. A plain char stands for
/// itself. The double quote and the backslash get a backslash in front. A
/// control character gets its short escape where JSON has one (`\b`, `\t`,
/// `\n`, `\f`, `\r`), and otherwise `\u00` and its two hexadecimal digits.
pub open spec fn escaped_char(c: char) -> Seq<char> {
    if c == '"' {
        seq!['\\', '"']
    } else if c == '\\' {
        seq!['\\', '\\']
    } else if c == '\u{8}' {
        seq!['\\', 'b']
    } else if c == '\t' {
        seq!['\\', 't']
    } else if c == '\n' {
        seq!['\\', 'n']
    } else if c == '\u{c}' {
        seq!['\\', 'f']
    } else if c == '\r' {
        seq!['\\', 'r']
    } else if (c as u32) < 0x20 {
        seq!['\\', 'u', '0', '0', hex_digit(c as u32 / 16), hex_digit(c as u32 % 16)]
    } else {
        seq![c]
    }
}

/// How a text is written inside a JSON string: char by char, each as
/// [`escaped_char`] writes it.
pub open spec fn escaped(text: Seq<char>) -> Seq<char>
    decreases text.len(),
{
    if text.len() == 0 {
        Seq::empty()
    } else {
        escaped(text.drop_last()) + escaped_char(text.last())
    }
}

/// Whether a char is a hexadecimal digit, in either case.
pub open spec fn is_hex(c: char) -> bool {
    let code = c as u32;
    (0x30 <= code <= 0x39) || (0x41 <= code <= 0x46) || (0x61 <= code <= 0x66)
}

/// Whether a char may follow a backslash as a short escape.
pub open spec fn is_short_escape(c: char) -> bool {
    c == '"' || c == '\\' || c == '/' || c == 'b' || c == 'f' || c == 'n' || c == 'r' || c == 't'
}

/// Whether `body` can stand between the quotes of a JSON string: read from
/// the front it is a run of plain chars, short escapes, and `\u` escapes of
/// four hexadecimal digits, and nothing else.
pub open spec fn is_string_body(body: Seq<char>) -> bool
    decreases body.len(),
{
    if body.len() == 0 {
        true
    } else if is_plain(body[0]) {
        is_string_body(body.skip(1))
    } else if body[0] != '\\' || body.len() < 2 {
        false
    } else if is_short_escape(body[1]) {
        is_string_body(body.skip(2))
    } else {
        &&& body[1] == 'u'
        &&& body.len() >= 6
        &&& is_hex(body[2])
        &&& is_hex(body[3])
        &&& is_hex(body[4])
        &&& is_hex(body[5])
        &&& is_string_body(body.skip(6))
    }
}

/// The value of a hexadecimal digit, in either case.
pub open spec fn hex_value(c: char) -> int {
    let code = c as u32;
    if 0x30 <= code <= 0x39 {
        code - 0x30
    } else if 0x41 <= code <= 0x46 {
        code - 0x41 + 10
    } else {
        code - 0x61 + 10
    }
}

/// The char that a short escape stands for, by the char after the backslash.
pub open spec fn short_escape_value(c: char) -> char {
    if c == 'b' {
        '\u{8}'
    } else if c == 't' {
        '\t'
    } else if c == 'n' {
        '\n'
    } else if c == 'f' {
        '\u{c}'
    } else if c == 'r' {
        '\r'
    } else {
        c
    }
}

/// What a string body stands for, read from the front as a reader of JSON
/// does: a plain char for itself, a short escape for its char, and a `\u`
/// escape for the char whose code its four digits give. Escapes are read
/// one by one: two that make a surrogate pair are not joined, and the
/// writer here never makes such a pair.
pub open spec fn string_value(body: Seq<char>) -> Seq<char>
    decreases body.len(),
{
    if body.len() == 0 {
        Seq::empty()
    } else if body[0] != '\\' {
        seq![body[0]] + string_value(body.skip(1))
    } else if body.len() >= 2 && is_short_escape(body[1]) {
        seq![short_escape_value(body[1])] + string_value(body.skip(2))
    } else if body.len() >= 6 {
        seq![
            (4096 * hex_value(body[2]) + 256 * hex_value(body[3]) + 16 * hex_value(body[4])
                + hex_value(body[5])) as char,
        ] + string_value(body.skip(6))
    } else {
        Seq::empty()
    }
}

/// The digit for `value`.
fn hex_digit_of(value: u32) -> (digit: char)
    requires
        value < 16,
    ensures
        digit == hex_digit(value),
{
    if value == 0 {
        '0'
    } else if value == 1 {
        '1'
    } else if value == 2 {
        '2'
    } else if value == 3 {
        '3'
    } else if value == 4 {
        '4'
    } else if value == 5 {
        '5'
    } else if value == 6 {
        '6'
    } else if value == 7 {
        '7'
    } else if value == 8 {
        '8'
    } else if value == 9 {
        '9'
    } else if value == 10 {
        'a'
    } else if value == 11 {
        'b'
    } else if value == 12 {
        'c'
    } else if value == 13 {
        'd'
    } else if value == 14 {
        'e'
    } else {
        'f'
    }
}

/// Appends `c` to `out` as it is written inside a JSON string.
fn push_escaped_char(out: &mut String, c: char)
    ensures
        final(out)@ == old(out)@ + escaped_char(c),
{
    let code: u32 = c as u32;
    if c == '"' || c == '\\' {
        out.push('\\');
        out.push(c);
    } else if c == '\u{8}' {
        out.push('\\');
        out.push('b');
    } else if c == '\t' {
        out.push('\\');
        out.push('t');
    } else if c == '\n' {
        out.push('\\');
        out.push('n');
    } else if c == '\u{c}' {
        out.push('\\');
        out.push('f');
    } else if c == '\r' {
        out.push('\\');
        out.push('r');
    } else if code < 0x20 {
        out.push('\\');
        out.push('u');
        out.push('0');
        out.push('0');
        out.push(hex_digit_of(code / 16));
        out.push(hex_digit_of(code % 16));
    } else {
        out.push(c);
    }
    assert(out@ =~= old(out)@ + escaped_char(c));
}

/// Appends `text` to `out` as it is written inside a JSON string.
pub fn push_escaped(out: &mut String, text: &str)
    ensures
        final(out)@ == old(out)@ + escaped(text@),
{
    let mut rest = text.chars();
    let ghost mut done: int = 0;
    loop
        invariant
            0 <= done <= text@.len(),
            rest.remaining() == text@.skip(done),
            out@ == old(out)@ + escaped(text@.take(done)),
        ensures
            out@ == old(out)@ + escaped(text@),
        decreases text@.len() - done,
    {
        match rest.next() {
            None => {
                assert(text@.take(done) =~= text@);
                break ;
            },
            Some(c) => {
                push_escaped_char(out, c);
                proof {
                    assert(text@.take(done + 1).drop_last() =~= text@.take(done));
                    assert(text@.skip(done + 1) =~= text@.skip(done).drop_first());
                    assert(out@ =~= old(out)@ + escaped(text@.take(done + 1)));
                    done = done + 1;
                }
            },
        }
    }
}

/// Two string bodies set one after the other make a string body.
pub proof fn lemma_string_body_concat(front: Seq<char>, back: Seq<char>)
    requires
        is_string_body(front),
        is_string_body(back),
    ensures
        is_string_body(front + back),
    decreases front.len(),
{
    let whole = front + back;
    if front.len() == 0 {
        assert(whole =~= back);
    } else if is_plain(front[0]) {
        lemma_string_body_concat(front.skip(1), back);
        assert(whole.skip(1) =~= front.skip(1) + back);
    } else if is_short_escape(front[1]) {
        lemma_string_body_concat(front.skip(2), back);
        assert(whole.skip(2) =~= front.skip(2) + back);
    } else {
        lemma_string_body_concat(front.skip(6), back);
        assert(whole.skip(6) =~= front.skip(6) + back);
    }
}

/// A text of plain chars is a string body as it stands.
pub proof fn lemma_plain_text_is_string_body(text: Seq<char>)
    requires
        forall|i: int| 0 <= i < text.len() ==> is_plain(#[trigger] text[i]),
    ensures
        is_string_body(text),
    decreases text.len(),
{
    if text.len() > 0 {
        lemma_plain_text_is_string_body(text.skip(1));
    }
}

/// However a char is written, what is written is a string body.
pub proof fn lemma_escaped_char_is_string_body(c: char)
    ensures
        is_string_body(escaped_char(c)),
{
    let written = escaped_char(c);
    assert(is_string_body(Seq::<char>::empty()));
    if is_plain(c) {
        assert(written.skip(1) =~= Seq::<char>::empty());
    } else if written.len() == 2 {
        assert(written.skip(2) =~= Seq::<char>::empty());
    } else {
        assert(written.skip(6) =~= Seq::<char>::empty());
        assert(is_hex(hex_digit(c as u32 / 16)));
        assert(is_hex(hex_digit(c as u32 % 16)));
    }
}

/// However a text is written, what is written is a string body: no quote
/// ends it early, and every backslash in it starts an escape.
pub proof fn lemma_escaped_is_string_body(text: Seq<char>)
    ensures
        is_string_body(escaped(text)),
    decreases text.len(),
{
    if text.len() > 0 {
        lemma_escaped_is_string_body(text.drop_last());
        lemma_escaped_char_is_string_body(text.last());
        lemma_string_body_concat(escaped(text.drop_last()), escaped_char(text.last()));
    }
}

/// Writing two texts one after the other is writing the one text they make.
pub proof fn lemma_escaped_concat(front: Seq<char>, back: Seq<char>)
    ensures
        escaped(front + back) == escaped(front) + escaped(back),
    decreases back.len(),
{
    if back.len() == 0 {
        assert(front + back =~= front);
        assert(escaped(front) + escaped(back) =~= escaped(front));
    } else {
        lemma_escaped_concat(front, back.drop_last());
        assert((front + back).drop_last() =~= front + back.drop_last());
        assert(escaped(front + back) =~= escaped(front) + escaped(back));
    }
}

/// A text is written as its first char followed by the rest.
pub proof fn lemma_escaped_front(text: Seq<char>)
    requires
        text.len() > 0,
    ensures
        escaped(text) == escaped_char(text[0]) + escaped(text.drop_first()),
{
    let first = seq![text[0]];
    assert(text =~= first + text.drop_first());
    lemma_escaped_concat(first, text.drop_first());
    assert(first.drop_last() =~= Seq::<char>::empty());
    assert(escaped(first) =~= escaped_char(text[0])) by {
        reveal_with_fuel(escaped, 2);
    }
}

/// Reading what was written for one char, with more behind it, gives the
/// char back and goes on behind it.
proof fn lemma_string_value_of_escaped_char(c: char, rest: Seq<char>)
    ensures
        string_value(escaped_char(c) + rest) == seq![c] + string_value(rest),
{
    let written = escaped_char(c);
    let whole = written + rest;
    assert(whole.skip(written.len() as int) =~= rest);
    if written.len() == 6 {
        let code = c as u32;
        assert(hex_value(hex_digit(code / 16)) == code / 16);
        assert(hex_value(hex_digit(code % 16)) == code % 16);
        assert(hex_value(whole[2]) == 0 && hex_value(whole[3]) == 0);
        assert(16 * (code / 16) + code % 16 == code);
    }
}

/// Reading a plain text, with more behind it, gives the text back and goes
/// on behind it.
pub proof fn lemma_string_value_of_plain_text(text: Seq<char>, rest: Seq<char>)
    requires
        forall|i: int| 0 <= i < text.len() ==> is_plain(#[trigger] text[i]),
    ensures
        string_value(text + rest) == text + string_value(rest),
    decreases text.len(),
{
    if text.len() == 0 {
        assert(text + rest =~= rest);
        assert(text + string_value(rest) =~= string_value(rest));
    } else {
        lemma_string_value_of_plain_text(text.skip(1), rest);
        assert((text + rest).skip(1) =~= text.skip(1) + rest);
        assert(text + string_value(rest) =~= seq![text[0]] + (text.skip(1) + string_value(rest)));
    }
}

/// Reading what was written gives the text back, whatever the text holds.
pub proof fn lemma_string_value_of_escaped(text: Seq<char>)
    ensures
        string_value(escaped(text)) == text,
    decreases text.len(),
{
    if text.len() > 0 {
        lemma_escaped_front(text);
        lemma_string_value_of_escaped_char(text[0], escaped(text.drop_first()));
        lemma_string_value_of_escaped(text.drop_first());
        assert(text =~= seq![text[0]] + text.drop_first());
    }
}

/// What is written tells what was meant: two texts that are written alike
/// are the same text.
pub proof fn lemma_escaped_tells_texts_apart(text: Seq<char>, other: Seq<char>)
    requires
        escaped(text) == escaped(other),
    ensures
        text == other,
{
    lemma_string_value_of_escaped(text);
    lemma_string_value_of_escaped(other);
}

} // verus!
