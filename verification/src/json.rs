//! JSON string literals: how a text is written between quotes and how such a
//! literal is read back.

use vstd::prelude::*;

verus! {

/// The lower-case hexadecimal digit for a value from 0 to 15.
pub open spec fn hex_digit(value: int) -> char {
    if value < 10 {
        ('0' as int + value) as char
    } else {
        ('a' as int + (value - 10)) as char
    }
}

/// The value of a hexadecimal digit of either case, if `c` is one.
pub open spec fn hex_value(c: char) -> Option<int> {
    if '0' <= c && c <= '9' {
        Some(c as int - '0' as int)
    } else if 'a' <= c && c <= 'f' {
        Some(c as int - 'a' as int + 10)
    } else if 'A' <= c && c <= 'F' {
        Some(c as int - 'A' as int + 10)
    } else {
        None
    }
}

/// What stands for one character inside a string literal. The quote, the
/// backslash and the control characters below U+0020 are escaped: five of
/// the control characters by a letter, the others by `\u00` and two
/// hexadecimal digits. Every other character stands for itself.
pub open spec fn escaped_char(c: char) -> Seq<char> {
    if c == '"' {
        seq!['\\', '"']
    } else if c == '\\' {
        seq!['\\', '\\']
    } else if c == '\u{08}' {
        seq!['\\', 'b']
    } else if c == '\t' {
        seq!['\\', 't']
    } else if c == '\n' {
        seq!['\\', 'n']
    } else if c == '\u{0c}' {
        seq!['\\', 'f']
    } else if c == '\r' {
        seq!['\\', 'r']
    } else if (c as int) < 0x20 {
        seq!['\\', 'u', '0', '0', hex_digit(c as int / 16), hex_digit(c as int % 16)]
    } else {
        seq![c]
    }
}

/// A text with each of its characters escaped, in order.
pub open spec fn escaped(text: Seq<char>) -> Seq<char>
    decreases text.len(),
{
    if text.len() == 0 {
        Seq::empty()
    } else {
        escaped_char(text[0]) + escaped(text.drop_first())
    }
}

/// The string literal that denotes `text`: its escaped form between two
/// quotes.
pub open spec fn quoted(text: Seq<char>) -> Seq<char> {
    seq!['"'] + escaped(text) + seq!['"']
}

/// Whether a code point is a Unicode scalar value, that is, no surrogate.
pub open spec fn is_scalar(code: int) -> bool {
    (0 <= code && code < 0xD800) || (0xDFFF < code && code <= 0x10FFFF)
}

/// Reads the escape that follows a backslash at the front of `input`: the
/// character it denotes and the number of characters it takes up. Besides
/// the two-character escapes it reads `u` with four hexadecimal digits that
/// give a scalar value; the two halves of a surrogate pair are not read.
pub open spec fn unescaped(input: Seq<char>) -> Option<(char, int)> {
    if input.len() == 0 {
        None
    } else if input[0] == '"' {
        Some(('"', 1))
    } else if input[0] == '\\' {
        Some(('\\', 1))
    } else if input[0] == '/' {
        Some(('/', 1))
    } else if input[0] == 'b' {
        Some(('\u{08}', 1))
    } else if input[0] == 't' {
        Some(('\t', 1))
    } else if input[0] == 'n' {
        Some(('\n', 1))
    } else if input[0] == 'f' {
        Some(('\u{0c}', 1))
    } else if input[0] == 'r' {
        Some(('\r', 1))
    } else if input[0] == 'u' && input.len() >= 5 {
        match (hex_value(input[1]), hex_value(input[2]), hex_value(input[3]), hex_value(input[4])) {
            (Some(a), Some(b), Some(c), Some(d)) => {
                let code = ((a * 16 + b) * 16 + c) * 16 + d;
                if is_scalar(code) {
                    Some((code as char, 5))
                } else {
                    None
                }
            },
            _ => None,
        }
    } else {
        None
    }
}

/// Reads a string literal whose opening quote has been passed, from the front
/// of `input`: the text it denotes and the number of characters up to and
/// including the closing quote. There is no result where the literal is not
/// closed, holds a bare control character or holds an escape that
/// [`unescaped`] does not read.
#[verifier::opaque]
pub open spec fn read_text(input: Seq<char>) -> Option<(Seq<char>, int)>
    decreases input.len(),
{
    if input.len() == 0 {
        None
    } else if input[0] == '"' {
        Some((Seq::empty(), 1))
    } else if input[0] == '\\' {
        match unescaped(input.skip(1)) {
            Some((c, width)) => match read_text(input.skip(1 + width)) {
                Some((text, taken)) => Some((seq![c] + text, 1 + width + taken)),
                None => None,
            },
            None => None,
        }
    } else if (input[0] as int) < 0x20 {
        None
    } else {
        match read_text(input.skip(1)) {
            Some((text, taken)) => Some((seq![input[0]] + text, 1 + taken)),
            None => None,
        }
    }
}

/// Reads a string literal from the front of `input`: the text it denotes and
/// the number of characters of the literal, both quotes included.
pub open spec fn read_quoted(input: Seq<char>) -> Option<(Seq<char>, int)> {
    if input.len() > 0 && input[0] == '"' {
        match read_text(input.skip(1)) {
            Some((text, taken)) => Some((text, 1 + taken)),
            None => None,
        }
    } else {
        None
    }
}

/// The result of reading on after `prefix` has been read from `offset`
/// characters: `rest` is what the reader makes of the remaining input.
spec fn continued(prefix: Seq<char>, offset: int, rest: Option<(Seq<char>, int)>) -> Option<
    (Seq<char>, int),
> {
    match rest {
        Some((tail, taken)) => Some((prefix + tail, offset + taken)),
        None => None,
    }
}

/// [`read_text`] on input that has run out.
proof fn lemma_read_text_unclosed(input: Seq<char>)
    requires
        input.len() == 0,
    ensures
        read_text(input) is None,
{
    reveal(read_text);
}

/// [`read_text`] at the closing quote.
proof fn lemma_read_text_closed(input: Seq<char>)
    requires
        input.len() > 0,
        input[0] == '"',
    ensures
        read_text(input) == Some((Seq::<char>::empty(), 1int)),
{
    reveal(read_text);
}

/// [`read_text`] at a bare control character.
proof fn lemma_read_text_control(input: Seq<char>)
    requires
        input.len() > 0,
        (input[0] as int) < 0x20,
    ensures
        read_text(input) is None,
{
    reveal(read_text);
}

/// [`read_text`] at a backslash that no escape follows.
proof fn lemma_read_text_no_escape(input: Seq<char>)
    requires
        input.len() > 0,
        input[0] == '\\',
        unescaped(input.skip(1)) is None,
    ensures
        read_text(input) is None,
{
    reveal(read_text);
}

/// One step of [`read_text`] over a character that stands for itself.
proof fn lemma_read_text_plain(input: Seq<char>)
    requires
        input.len() > 0,
        input[0] != '"',
        input[0] != '\\',
        (input[0] as int) >= 0x20,
    ensures
        read_text(input) == continued(seq![input[0]], 1, read_text(input.skip(1))),
{
    reveal(read_text);
}

/// One step of [`read_text`] over an escape.
proof fn lemma_read_text_escape(input: Seq<char>, c: char, width: int)
    requires
        input.len() > 0,
        input[0] == '\\',
        unescaped(input.skip(1)) == Some((c, width)),
    ensures
        read_text(input) == continued(seq![c], 1 + width, read_text(input.skip(1 + width))),
{
    reveal(read_text);
}

/// Skipping twice is skipping once.
proof fn lemma_skip_skip(s: Seq<char>, first: int, second: int)
    requires
        0 <= first,
        0 <= second,
        first + second <= s.len(),
    ensures
        s.skip(first).skip(second) == s.skip(first + second),
{
    assert(s.skip(first).skip(second) =~= s.skip(first + second));
}

/// Reading on after one more character `c` of `width` characters.
proof fn lemma_continued_push(
    prefix: Seq<char>,
    offset: int,
    c: char,
    width: int,
    rest: Option<(Seq<char>, int)>,
)
    ensures
        continued(prefix, offset, continued(seq![c], width, rest)) == continued(
            prefix.push(c),
            offset + width,
            rest,
        ),
{
    match rest {
        Some((tail, taken)) => {
            assert(prefix + (seq![c] + tail) =~= prefix.push(c) + tail);
        },
        None => {},
    }
}

/// Reading the escape of a character gives that character back, whatever
/// follows the escape.
proof fn lemma_unescaped_escaped_char(c: char, rest: Seq<char>)
    requires
        c == '"' || c == '\\' || (c as int) < 0x20,
    ensures
        escaped_char(c).len() >= 2,
        escaped_char(c)[0] == '\\',
        unescaped((escaped_char(c) + rest).skip(1)) == Some((c, escaped_char(c).len() as int - 1)),
{
    let input = (escaped_char(c) + rest).skip(1);
    if c == '"' || c == '\\' || c == '\u{08}' || c == '\t' || c == '\n' || c == '\u{0c}' || c == '\r' {
        assert(input[0] == escaped_char(c)[1]);
    } else {
        let high = c as int / 16;
        let low = c as int % 16;
        assert(0 <= high < 2 && 0 <= low < 16);
        assert(input.len() >= 5);
        assert(input[0] == 'u');
        assert(input[1] == '0');
        assert(input[2] == '0');
        assert(input[3] == hex_digit(high));
        assert(input[4] == hex_digit(low));
        assert(hex_value('0') == Some(0int));
        assert(hex_value(hex_digit(high)) == Some(high));
        assert(hex_value(hex_digit(low)) == Some(low));
        assert(((0 * 16 + 0) * 16 + high) * 16 + low == c as int);
        assert((c as int) as char == c);
    }
}

/// Reading over the escaped form of one character gives that character and
/// goes on with what follows it.
proof fn lemma_read_text_escaped_char(c: char, after: Seq<char>)
    ensures
        read_text(escaped_char(c) + after) == continued(
            seq![c],
            escaped_char(c).len() as int,
            read_text(after),
        ),
{
    let input = escaped_char(c) + after;
    if c == '"' || c == '\\' || (c as int) < 0x20 {
        lemma_unescaped_escaped_char(c, after);
        let width = escaped_char(c).len() - 1;
        assert(input[0] == escaped_char(c)[0]);
        assert(input.skip(1 + width) =~= after);
        lemma_read_text_escape(input, c, width);
    } else {
        assert(input[0] == c);
        assert(input.skip(1) =~= after);
        lemma_read_text_plain(input);
    }
}

/// A literal's body is read back as the text it was written from: after the
/// escaped form of `text` and a closing quote, whatever follows, the reader
/// returns `text` and stops behind that quote.
proof fn lemma_read_text_escaped(text: Seq<char>, rest: Seq<char>)
    ensures
        read_text(escaped(text) + seq!['"'] + rest) == Some((text, escaped(text).len() as int + 1)),
    decreases text.len(),
{
    let input = escaped(text) + seq!['"'] + rest;
    if text.len() == 0 {
        assert(input[0] == '"');
        lemma_read_text_closed(input);
        assert(text =~= Seq::empty());
    } else {
        let c = text[0];
        let tail = text.drop_first();
        let after = escaped(tail) + seq!['"'] + rest;
        lemma_read_text_escaped(tail, rest);
        lemma_read_text_escaped_char(c, after);
        assert(input =~= escaped_char(c) + after);
        assert(text =~= seq![c] + tail);
    }
}

/// A string literal is read back as the text it was written from, whatever
/// follows the literal.
pub proof fn lemma_read_quoted(text: Seq<char>, rest: Seq<char>)
    ensures
        read_quoted(quoted(text) + rest) == Some((text, quoted(text).len() as int)),
{
    let input = quoted(text) + rest;
    lemma_read_text_escaped(text, rest);
    assert(input[0] == '"');
    assert(input.skip(1) =~= escaped(text) + seq!['"'] + rest);
}

/// `String::push` of the standard library: appends one character at the end
/// of the string.
pub assume_specification[ String::push ](text: &mut String, c: char)
    ensures
        final(text)@ == old(text)@.push(c),
;

/// `char::from_u32` of the standard library: the character with the given
/// code, and `None` where the code is a surrogate or lies above U+10FFFF.
pub assume_specification[ char::from_u32 ](code: u32) -> (c: Option<char>)
    ensures
        c == if is_scalar(code as int) {
            Some(code as char)
        } else {
            None
        },
;

/// Calls `serde_json::to_string` on a string slice. For a string the call
/// writes a quote, the text with `"`, `\` and the characters below U+0020
/// escaped (`\b`, `\t`, `\n`, `\f`, `\r`, otherwise `\u00` with two
/// lower-case hexadecimal digits), and a closing quote; it writes into memory
/// and has no way to fail. The contract states that output, which is not
/// verified here.
#[verifier::external_body]
pub(crate) fn quote(text: &str) -> (literal: String)
    ensures
        literal@ == quoted(text@),
{
    serde_json::to_string(text).unwrap()
}

/// Whether `c` is a control character below U+0020, which no string literal
/// holds unescaped.
fn is_control(c: char) -> (control: bool)
    ensures
        control == ((c as int) < 0x20),
{
    (c as u32) < 0x20
}

/// The value of a hexadecimal digit of either case.
fn hex_value_of(c: char) -> (value: Option<u32>)
    ensures
        match value {
            Some(v) => hex_value(c) == Some(v as int) && v < 16,
            None => hex_value(c) is None,
        },
{
    let code: u32 = c as u32;
    if 0x30 <= code && code <= 0x39 {
        Some(code - 0x30)
    } else if 0x61 <= code && code <= 0x66 {
        Some(code - 0x61 + 10)
    } else if 0x41 <= code && code <= 0x46 {
        Some(code - 0x41 + 10)
    } else {
        None
    }
}

/// Reads the escape that follows a backslash, from position `at` on: the
/// character it denotes and the number of characters it takes up.
fn unescape_at(chars: &Vec<char>, at: usize) -> (escape: Option<(char, usize)>)
    requires
        at <= chars.len(),
    ensures
        match escape {
            Some((c, width)) => {
                &&& unescaped(chars@.skip(at as int)) == Some((c, width as int))
                &&& 1 <= width
                &&& at + width <= chars.len()
            },
            None => unescaped(chars@.skip(at as int)) is None,
        },
{
    let ghost input = chars@.skip(at as int);
    if at >= chars.len() {
        return None;
    }
    let first = chars[at];
    assert(input[0] == first);
    if first == '"' {
        Some(('"', 1))
    } else if first == '\\' {
        Some(('\\', 1))
    } else if first == '/' {
        Some(('/', 1))
    } else if first == 'b' {
        Some(('\u{08}', 1))
    } else if first == 't' {
        Some(('\t', 1))
    } else if first == 'n' {
        Some(('\n', 1))
    } else if first == 'f' {
        Some(('\u{0c}', 1))
    } else if first == 'r' {
        Some(('\r', 1))
    } else if first == 'u' && chars.len() - at >= 5 {
        assert(input[1] == chars[at + 1]);
        assert(input[2] == chars[at + 2]);
        assert(input[3] == chars[at + 3]);
        assert(input[4] == chars[at + 4]);
        match (
            hex_value_of(chars[at + 1]),
            hex_value_of(chars[at + 2]),
            hex_value_of(chars[at + 3]),
            hex_value_of(chars[at + 4]),
        ) {
            (Some(a), Some(b), Some(c), Some(d)) => {
                let code: u32 = ((a * 16 + b) * 16 + c) * 16 + d;
                match char::from_u32(code) {
                    Some(decoded) => Some((decoded, 5)),
                    None => None,
                }
            },
            _ => None,
        }
    } else {
        None
    }
}

/// Reads the string literal that begins at position `at`: the text it
/// denotes and the position behind its closing quote.
pub(crate) fn read_literal(chars: &Vec<char>, at: usize) -> (literal: Option<(String, usize)>)
    requires
        at <= chars.len(),
    ensures
        match literal {
            Some((text, next)) => {
                &&& read_quoted(chars@.skip(at as int)) == Some((text@, next - at))
                &&& at < next <= chars.len()
            },
            None => read_quoted(chars@.skip(at as int)) is None,
        },
{
    if at >= chars.len() || chars[at] != '"' {
        return None;
    }
    let mut text = String::new();
    let mut position: usize = at + 1;
    proof {
        lemma_skip_skip(chars@, at as int, 1);
        match read_text(chars@.skip(position as int)) {
            Some((tail, taken)) => {
                assert(text@ + tail =~= tail);
            },
            None => {},
        }
    }
    loop
        invariant
            at < position <= chars.len(),
            read_quoted(chars@.skip(at as int)) == continued(
                text@,
                position - at,
                read_text(chars@.skip(position as int)),
            ),
        decreases chars.len() - position,
    {
        let ghost input = chars@.skip(position as int);
        let ghost before = text@;
        if position >= chars.len() {
            proof {
                lemma_read_text_unclosed(input);
            }
            return None;
        }
        let c = chars[position];
        if c == '"' {
            proof {
                lemma_read_text_closed(input);
                assert(before + Seq::<char>::empty() =~= before);
            }
            return Some((text, position + 1));
        } else if c == '\\' {
            proof {
                lemma_skip_skip(chars@, position as int, 1);
            }
            match unescape_at(chars, position + 1) {
                Some((decoded, width)) => {
                    proof {
                        lemma_skip_skip(chars@, position as int, 1 + width);
                        lemma_read_text_escape(input, decoded, width as int);
                        lemma_continued_push(
                            before,
                            position - at,
                            decoded,
                            1 + width,
                            read_text(input.skip(1 + width)),
                        );
                    }
                    text.push(decoded);
                    position = position + 1 + width;
                },
                None => {
                    proof {
                        lemma_read_text_no_escape(input);
                    }
                    return None;
                },
            }
        } else if is_control(c) {
            proof {
                lemma_read_text_control(input);
            }
            return None;
        } else {
            proof {
                lemma_skip_skip(chars@, position as int, 1);
                lemma_read_text_plain(input);
                lemma_continued_push(before, position - at, c, 1, read_text(input.skip(1)));
            }
            text.push(c);
            position = position + 1;
        }
    }
}

} // verus!
