//! Lower-case hexadecimal text.
use vstd::prelude::*;

verus! {

/// The lower-case hexadecimal digit that stands for `value`, which is below 16.
pub open spec fn hex_digit(value: int) -> char
    recommends
        0 <= value < 16,
{
    if value < 10 {
        ('0' as int + value) as char
    } else {
        ('a' as int + value - 10) as char
    }
}

/// Two digits for each byte, the high half of the byte first.
pub open spec fn hex_digits(bytes: Seq<u8>) -> Seq<char> {
    Seq::new(
        2 * bytes.len(),
        |i: int|
            if i % 2 == 0 {
                hex_digit(bytes[i / 2] as int / 16)
            } else {
                hex_digit(bytes[i / 2] as int % 16)
            },
    )
}

/// The text stands for `n` bytes.
pub open spec fn is_hex(text: Seq<char>, n: nat) -> bool {
    exists|bytes: Seq<u8>| bytes.len() == n && #[trigger] hex_digits(bytes) == text
}

/// `hex::encode`: the hexadecimal text of `bytes` in lower case, two digits to
/// a byte.
#[verifier::external_body]
pub(crate) fn hex_encode(bytes: &[u8]) -> (text: String)
    ensures
        text@ == hex_digits(bytes@),
{
    hex::encode(bytes)
}

/// The number that a hexadecimal digit stands for.
pub open spec fn digit_value(digit: char) -> int {
    if '0' as int <= digit as int <= '9' as int {
        digit as int - '0' as int
    } else {
        digit as int - 'a' as int + 10
    }
}

/// Hexadecimal text has two digits for each byte, each a figure or a lower-case letter up to
/// `f`, and the two spell the byte: nothing is left out.
pub proof fn law_hex_spells_every_byte(bytes: Seq<u8>)
    ensures
        hex_digits(bytes).len() == 2 * bytes.len(),
        forall|i: int|
            0 <= i < bytes.len() ==> #[trigger] bytes[i] == 16 * digit_value(
                hex_digits(bytes)[2 * i],
            ) + digit_value(hex_digits(bytes)[2 * i + 1]),
        forall|i: int|
            0 <= i < 2 * bytes.len() ==> {
                let digit = #[trigger] hex_digits(bytes)[i] as int;
                '0' as int <= digit <= '9' as int || 'a' as int <= digit <= 'f' as int
            },
{
    let text = hex_digits(bytes);
    assert forall|i: int| 0 <= i < bytes.len() implies #[trigger] bytes[i] == 16 * digit_value(
        text[2 * i],
    ) + digit_value(text[2 * i + 1]) by {
        assert((2 * i) % 2 == 0 && (2 * i) / 2 == i);
        assert((2 * i + 1) % 2 == 1 && (2 * i + 1) / 2 == i);
        let byte = bytes[i] as int;
        assert(0 <= byte / 16 < 16 && 0 <= byte % 16 < 16 && byte == 16 * (byte / 16) + byte % 16);
    }
    assert forall|i: int| 0 <= i < 2 * bytes.len() implies {
        let digit = #[trigger] text[i] as int;
        '0' as int <= digit <= '9' as int || 'a' as int <= digit <= 'f' as int
    } by {
        let byte = bytes[i / 2] as int;
        assert(0 <= byte / 16 < 16 && 0 <= byte % 16 < 16);
    }
}

/// Different bytes have different hexadecimal texts.
pub proof fn law_hex_tells_bytes_apart(a: Seq<u8>, b: Seq<u8>)
    requires
        hex_digits(a) == hex_digits(b),
    ensures
        a == b,
{
    law_hex_spells_every_byte(a);
    law_hex_spells_every_byte(b);
    assert(a =~= b);
}

} // verus!
