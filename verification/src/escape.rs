//! How a string is written into JSON text: between its quotes, with a
//! backslash before each quote and backslash, and every control character
//! as `\u00` and its two hexadecimal digits.

use crate::outside::push_char;
use vstd::prelude::*;

verus! {

/// The hexadecimal digit for a value below 16, in lower case.
pub open spec fn hex_digit(n: int) -> char {
    if n == 0 {
        '0'
    } else if n == 1 {
        '1'
    } else if n == 2 {
        '2'
    } else if n == 3 {
        '3'
    } else if n == 4 {
        '4'
    } else if n == 5 {
        '5'
    } else if n == 6 {
        '6'
    } else if n == 7 {
        '7'
    } else if n == 8 {
        '8'
    } else if n == 9 {
        '9'
    } else if n == 10 {
        'a'
    } else if n == 11 {
        'b'
    } else if n == 12 {
        'c'
    } else if n == 13 {
        'd'
    } else if n == 14 {
        'e'
    } else {
        'f'
    }
}

/// How one character stands in a JSON string.
pub open spec fn escaped_char(c: char) -> Seq<char> {
    if c == '"' {
        seq!['\\', '"']
    } else if c == '\\' {
        seq!['\\', '\\']
    } else if (c as u32) < 0x20 {
        seq!['\\', 'u', '0', '0', hex_digit((c as u32 / 16) as int), hex_digit((c as u32 % 16) as int)]
    } else {
        seq![c]
    }
}

/// How a text stands in a JSON string, between the quotes.
pub open spec fn escaped(text: Seq<char>) -> Seq<char>
    decreases text.len(),
{
    if text.len() == 0 {
        Seq::<char>::empty()
    } else {
        escaped(text.drop_last()) + escaped_char(text.last())
    }
}

/// The hexadecimal digit for `n`.
fn hex_digit_of(n: u32) -> (digit: char)
    requires
        n < 16,
    ensures
        digit == hex_digit(n as int),
{
    if n == 0 {
        '0'
    } else if n == 1 {
        '1'
    } else if n == 2 {
        '2'
    } else if n == 3 {
        '3'
    } else if n == 4 {
        '4'
    } else if n == 5 {
        '5'
    } else if n == 6 {
        '6'
    } else if n == 7 {
        '7'
    } else if n == 8 {
        '8'
    } else if n == 9 {
        '9'
    } else if n == 10 {
        'a'
    } else if n == 11 {
        'b'
    } else if n == 12 {
        'c'
    } else if n == 13 {
        'd'
    } else if n == 14 {
        'e'
    } else {
        'f'
    }
}

/// Appends `c` to `out` as it stands in a JSON string.
fn push_escaped(out: &mut String, c: char)
    ensures
        final(out)@ == old(out)@ + escaped_char(c),
{
    let code: u32 = c as u32;
    if c == '"' {
        push_char(out, '\\');
        push_char(out, '"');
    } else if c == '\\' {
        push_char(out, '\\');
        push_char(out, '\\');
    } else if code < 0x20 {
        push_char(out, '\\');
        push_char(out, 'u');
        push_char(out, '0');
        push_char(out, '0');
        push_char(out, hex_digit_of(code / 16));
        push_char(out, hex_digit_of(code % 16));
    } else {
        push_char(out, c);
    }
    assert(out@ =~= old(out)@ + escaped_char(c));
}

/// Appends `text` to `out` as it stands in a JSON string.
pub fn push_escaped_text(out: &mut String, text: &str)
    ensures
        final(out)@ == old(out)@ + escaped(text@),
{
    let ghost before = out@;
    assert(out@ =~= before + escaped(text@.take(0)));
    for c in iter: text.chars()
        invariant
            iter.seq() == text@,
            out@ == before + escaped(text@.take(iter.index() as int)),
    {
        push_escaped(out, c);
        assert(text@.take(iter.index() + 1).drop_last() =~= text@.take(iter.index() as int));
        assert(out@ =~= before + escaped(text@.take(iter.index() + 1)));
    }
    assert(text@.take(text@.len() as int) =~= text@);
}

/// The value of a hexadecimal digit in lower case.
spec fn hex_value(c: char) -> int {
    if c == '0' {
        0
    } else if c == '1' {
        1
    } else if c == '2' {
        2
    } else if c == '3' {
        3
    } else if c == '4' {
        4
    } else if c == '5' {
        5
    } else if c == '6' {
        6
    } else if c == '7' {
        7
    } else if c == '8' {
        8
    } else if c == '9' {
        9
    } else if c == 'a' {
        10
    } else if c == 'b' {
        11
    } else if c == 'c' {
        12
    } else if c == 'd' {
        13
    } else if c == 'e' {
        14
    } else {
        15
    }
}

/// The character that two hexadecimal digits stand for.
spec fn unhex(high: char, low: char) -> char {
    ((16 * hex_value(high) + hex_value(low)) as u32) as char
}

/// What stands in `text` before its first bare quote, read back, and what
/// follows that quote.
pub closed spec fn read_string(text: Seq<char>) -> (Seq<char>, Seq<char>)
    decreases text.len(),
{
    if text.len() == 0 {
        (Seq::<char>::empty(), Seq::<char>::empty())
    } else if text[0] == '"' {
        (Seq::<char>::empty(), text.skip(1))
    } else if text[0] == '\\' && text.len() >= 6 && text[1] == 'u' {
        let rest = read_string(text.skip(6));
        (seq![unhex(text[4], text[5])] + rest.0, rest.1)
    } else if text[0] == '\\' && text.len() >= 2 {
        let rest = read_string(text.skip(2));
        (seq![text[1]] + rest.0, rest.1)
    } else {
        let rest = read_string(text.skip(1));
        (seq![text[0]] + rest.0, rest.1)
    }
}

/// A text is escaped character by character, from the front as from the
/// back.
pub proof fn lemma_escaped_from_front(c: char, text: Seq<char>)
    ensures
        escaped(seq![c] + text) == escaped_char(c) + escaped(text),
    decreases text.len(),
{
    let whole = seq![c] + text;
    if text.len() == 0 {
        assert(whole.drop_last() =~= Seq::<char>::empty());
        assert(escaped(whole.drop_last()) =~= Seq::<char>::empty());
        assert(escaped(whole) =~= escaped_char(c) + escaped(text));
    } else {
        assert(whole.drop_last() =~= seq![c] + text.drop_last());
        lemma_escaped_from_front(c, text.drop_last());
        assert(escaped(whole) =~= escaped_char(c) + escaped(text));
    }
}

/// What was escaped is read back as it was: from the escaped text, the
/// quote that closes it and anything behind, the reader gives the text and
/// what stands behind the quote.
pub proof fn lemma_read_string_of_escaped(text: Seq<char>, behind: Seq<char>)
    ensures
        read_string(escaped(text) + seq!['"'] + behind) == (text, behind),
    decreases text.len(),
{
    let written = escaped(text) + seq!['"'] + behind;
    if text.len() == 0 {
        assert(written.skip(1) =~= behind);
    } else {
        let c = text[0];
        let rest = text.drop_first();
        let tail = escaped(rest) + seq!['"'] + behind;
        assert(text =~= seq![c] + rest);
        lemma_escaped_from_front(c, rest);
        lemma_read_string_of_escaped(rest, behind);
        assert(written =~= escaped_char(c) + tail);
        if c == '"' || c == '\\' {
            assert(written.skip(2) =~= tail);
        } else if (c as u32) < 0x20 {
            assert(written.skip(6) =~= tail);
            let code = c as u32;
            assert(written[4] == hex_digit((code / 16) as int));
            assert(written[5] == hex_digit((code % 16) as int));
            assert(hex_value(written[4]) == code / 16);
            assert(hex_value(written[5]) == code % 16);
            assert(16 * hex_value(written[4]) + hex_value(written[5]) == code);
            vstd::utf8::char_u32_cast(c, code);
            assert(unhex(written[4], written[5]) == c);
        } else {
            assert(written.skip(1) =~= tail);
        }
        assert(read_string(written).0 =~= text);
    }
}

} // verus!
