//! Text that goes into profiles and messages.

use vstd::prelude::*;

verus! {

/// What `String::from_utf8_lossy` makes of bytes that are not UTF-8.
pub uninterp spec fn repaired_utf8(bytes: Seq<u8>) -> Seq<char>;

/// The text of a path: its bytes read as UTF-8, with whatever is not UTF-8
/// replaced.
pub open spec fn path_text(path: Seq<u8>) -> Seq<char> {
    if vstd::utf8::valid_utf8(path) {
        vstd::utf8::decode_utf8(path)
    } else {
        repaired_utf8(path)
    }
}

/// Calls `String::from_utf8_lossy`. Bytes that are UTF-8 come back as the text
/// that they encode; the replacement text for other bytes has a name only.
#[verifier::external_body]
pub(crate) fn lossy_path(path: &[u8]) -> (text: String)
    ensures
        text@ == (if vstd::utf8::valid_utf8(path@) {
            vstd::utf8::decode_utf8(path@)
        } else {
            repaired_utf8(path@)
        }),
{
    String::from_utf8_lossy(path).into_owned()
}

/// `part` stands somewhere in `whole`.
pub open spec fn occurs_in(part: Seq<char>, whole: Seq<char>) -> bool {
    exists|before: Seq<char>, after: Seq<char>| whole == #[trigger] (before + part + after)
}

/// The decimal digit for a value below ten.
pub open spec fn digit_char(value: nat) -> char {
    ('0' as u32 + value) as char
}

/// The decimal form of a number, without leading zeros.
pub open spec fn decimal_text(value: nat) -> Seq<char>
    decreases value,
{
    if value < 10 {
        seq![digit_char(value)]
    } else {
        decimal_text(value / 10).push(digit_char(value % 10))
    }
}

fn digit(value: u64) -> (text: &'static str)
    requires
        value < 10,
    ensures
        text@ == seq![digit_char(value as nat)],
{
    proof {
        reveal_strlit("0");
        reveal_strlit("1");
        reveal_strlit("2");
        reveal_strlit("3");
        reveal_strlit("4");
        reveal_strlit("5");
        reveal_strlit("6");
        reveal_strlit("7");
        reveal_strlit("8");
        reveal_strlit("9");
    }
    match value {
        0 => "0",
        1 => "1",
        2 => "2",
        3 => "3",
        4 => "4",
        5 => "5",
        6 => "6",
        7 => "7",
        8 => "8",
        _ => "9",
    }
}

/// The decimal form of a number.
pub fn decimal(value: u64) -> (text: String)
    ensures
        text@ == decimal_text(value as nat),
    decreases value,
{
    if value < 10 {
        digit(value).to_owned()
    } else {
        let mut text = decimal(value / 10);
        text.append(digit(value % 10));
        text
    }
}

/// A number is written digit by digit: one below ten is its digit, and ten
/// times a number plus a digit is that number with the digit behind it.
pub proof fn law_decimal(value: nat, digit: nat)
    requires
        digit < 10,
    ensures
        decimal_text(digit) == seq!["0123456789"@[digit as int]],
        value > 0 ==> decimal_text(10 * value + digit) == decimal_text(value).push(
            "0123456789"@[digit as int],
        ),
{
    reveal_strlit("0123456789");
    assert((10 * value + digit) / 10 == value);
    assert((10 * value + digit) % 10 == digit);
}

/// The text of a path that is UTF-8 is the text that it encodes.
pub proof fn law_path_text(chars: Seq<char>)
    ensures
        path_text(vstd::utf8::encode_utf8(chars)) == chars,
{
    vstd::utf8::encode_utf8_valid_utf8(chars);
    vstd::utf8::encode_utf8_decode_utf8(chars);
}

/// The text of a path that is not UTF-8 is what the replacement makes of it.
pub proof fn law_repaired_path_text(path: Seq<u8>)
    requires
        !vstd::utf8::valid_utf8(path),
    ensures
        path_text(path) == repaired_utf8(path),
{
}

} // verus!
