//! What JSON texts are made of.
use vstd::prelude::*;

use crate::hex_text::{digit_value, hex_digit, hex_digits};

verus! {

/// A string in JSON spells the text as it is: no character of it needs an escape.
pub open spec fn is_plain(text: Seq<char>) -> bool {
    forall|i: int|
        0 <= i < text.len() ==> {
            &&& #[trigger] text[i] != '"'
            &&& text[i] != '\\'
            &&& text[i] as int >= 0x20
        }
}

/// How a string in JSON spells a character.
pub open spec fn escaped_char(c: char) -> Seq<char> {
    if c == '"' {
        seq!['\\', '"']
    } else if c == '\\' {
        seq!['\\', '\\']
    } else if c == '\n' {
        seq!['\\', 'n']
    } else if c == '\r' {
        seq!['\\', 'r']
    } else if c == '\t' {
        seq!['\\', 't']
    } else if c as int == 0x08 {
        seq!['\\', 'b']
    } else if c as int == 0x0c {
        seq!['\\', 'f']
    } else if (c as int) < 0x20 {
        seq!['\\', 'u', '0', '0', hex_digit(c as int / 16), hex_digit(c as int % 16)]
    } else {
        seq![c]
    }
}

/// How a string in JSON spells a text, without the quotation marks around it.
pub open spec fn escaped(text: Seq<char>) -> Seq<char>
    decreases text.len(),
{
    if text.len() == 0 {
        Seq::empty()
    } else {
        escaped(text.drop_last()) + escaped_char(text.last())
    }
}

/// The string in JSON that stands for a text.
pub open spec fn json_string(text: Seq<char>) -> Seq<char> {
    seq!['"'] + escaped(text) + seq!['"']
}

/// A text that needs no escapes is spelled as it is.
pub proof fn law_plain_texts_are_spelled_as_they_are(text: Seq<char>)
    requires
        is_plain(text),
    ensures
        escaped(text) == text,
    decreases text.len(),
{
    if text.len() > 0 {
        assert forall|i: int| 0 <= i < text.drop_last().len() implies {
            &&& #[trigger] text.drop_last()[i] != '"'
            &&& text.drop_last()[i] != '\\'
            &&& text.drop_last()[i] as int >= 0x20
        } by {
            assert(text.drop_last()[i] == text[i]);
        }
        law_plain_texts_are_spelled_as_they_are(text.drop_last());
        assert(escaped_char(text.last()) =~= seq![text.last()]);
        assert(escaped(text) =~= text);
    }
}

/// The decimal digits of a number.
pub open spec fn decimal(n: nat) -> Seq<char>
    decreases n,
{
    if n < 10 {
        seq![hex_digit(n as int)]
    } else {
        decimal(n / 10).push(hex_digit(n as int % 10))
    }
}

/// Some JSON texts with commas between them.
pub open spec fn joined(items: Seq<Seq<char>>) -> Seq<char>
    decreases items.len(),
{
    if items.len() == 0 {
        Seq::empty()
    } else if items.len() == 1 {
        items[0]
    } else {
        joined(items.drop_last()) + seq![','] + items.last()
    }
}

/// A JSON array.
pub open spec fn array(items: Seq<Seq<char>>) -> Seq<char> {
    seq!['['] + joined(items) + seq![']']
}

/// A JSON object with the given members.
pub open spec fn object(members: Seq<Seq<char>>) -> Seq<char> {
    seq!['{'] + joined(members) + seq!['}']
}

/// A member of a JSON object.
pub open spec fn member(name: Seq<char>, value: Seq<char>) -> Seq<char> {
    json_string(name) + seq![':'] + value
}

/// A member with a text, where there is one.
pub open spec fn text_member(name: Seq<char>, text: Option<Seq<char>>) -> Seq<Seq<char>> {
    match text {
        Some(text) => seq![member(name, json_string(text))],
        None => Seq::empty(),
    }
}

/// A member with a number, where there is one.
pub open spec fn number_member(name: Seq<char>, number: Option<u64>) -> Seq<Seq<char>> {
    match number {
        Some(number) => seq![member(name, decimal(number as nat))],
        None => Seq::empty(),
    }
}

/// Hexadecimal text is spelled as it is.
pub proof fn law_hex_is_spelled_as_it_is(bytes: Seq<u8>)
    ensures
        escaped(hex_digits(bytes)) == hex_digits(bytes),
{
    let text = hex_digits(bytes);
    assert forall|i: int| 0 <= i < text.len() implies {
        &&& #[trigger] text[i] != '"'
        &&& text[i] != '\\'
        &&& text[i] as int >= 0x20
    } by {
        let byte = bytes[i / 2];
        assert(0 <= byte as int / 16 < 16);
        assert(0 <= byte as int % 16 < 16);
    }
    law_plain_texts_are_spelled_as_they_are(text);
}

/// The number that decimal digits stand for.
pub open spec fn number_of(digits: Seq<char>) -> int
    decreases digits.len(),
{
    if digits.len() == 0 {
        0
    } else {
        10 * number_of(digits.drop_last()) + (digits.last() as int - '0' as int)
    }
}

/// The decimal digits of a number are figures, stand for that number, and begin with no
/// superfluous zero.
pub proof fn law_decimal_spells_the_number(n: nat)
    ensures
        number_of(decimal(n)) == n,
        forall|i: int|
            0 <= i < decimal(n).len() ==> '0' as int <= #[trigger] decimal(n)[i] as int
                <= '9' as int,
        decimal(n).len() > 0,
        n > 0 ==> decimal(n)[0] != '0',
    decreases n,
{
    let digits = decimal(n);
    if n < 10 {
        assert(digits.drop_last() =~= Seq::<char>::empty());
        assert(number_of(digits.drop_last()) == 0);
    } else {
        law_decimal_spells_the_number(n / 10);
        assert(digits.drop_last() =~= decimal(n / 10));
        assert(n == 10 * (n / 10) + n % 10);
        assert(digits[0] == decimal(n / 10)[0]);
    }
}

/// A text is spelled character by character: a quotation mark and a backslash with a
/// backslash before them, the control characters by their escapes, and every other character
/// as it is.
pub proof fn law_texts_are_spelled_character_by_character(text: Seq<char>, c: char)
    ensures
        escaped(Seq::empty()) == Seq::<char>::empty(),
        ({
            let more = escaped(text.push(c));
            let code = c as int;
            if c == '"' || c == '\\' {
                more == escaped(text) + seq!['\\', c]
            } else if code >= 0x20 {
                more == escaped(text).push(c)
            } else if c == '\n' {
                more == escaped(text) + seq!['\\', 'n']
            } else if c == '\r' {
                more == escaped(text) + seq!['\\', 'r']
            } else if c == '\t' {
                more == escaped(text) + seq!['\\', 't']
            } else if code == 8 {
                more == escaped(text) + seq!['\\', 'b']
            } else if code == 12 {
                more == escaped(text) + seq!['\\', 'f']
            } else {
                &&& more.len() == escaped(text).len() + 6
                &&& more.take(escaped(text).len() as int + 4) == escaped(text) + seq![
                    '\\',
                    'u',
                    '0',
                    '0',
                ]
                &&& code == 16 * digit_value(more[more.len() - 2]) + digit_value(more.last())
            }
        }),
        json_string(text) == seq!['"'] + escaped(text) + seq!['"'],
{
    assert(text.push(c).drop_last() =~= text);
    let more = escaped(text.push(c));
    assert(more == escaped(text) + escaped_char(c));
    let code = c as int;
    if c != '"' && c != '\\' && code >= 0x20 {
        assert(more =~= escaped(text).push(c));
    } else if code < 0x20 && c != '\n' && c != '\r' && c != '\t' && code != 8 && code != 12 {
        assert(0 <= code / 16 < 16 && 0 <= code % 16 < 16 && code == 16 * (code / 16) + code % 16);
        assert(more.take(escaped(text).len() as int + 4) =~= escaped(text) + seq![
            '\\',
            'u',
            '0',
            '0',
        ]);
        assert(more[more.len() - 2] == hex_digit(code / 16));
        assert(more.last() == hex_digit(code % 16));
    }
}

} // verus!
