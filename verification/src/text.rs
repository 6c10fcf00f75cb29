//! Text as it comes from and goes to other programs.

use vstd::prelude::*;
use vstd::string::StringExecFns;
use vstd::utf8::*;
use crate::error::SwitchError;

verus! {

/// The error of `std::str::from_utf8`. Nothing is read from it.
#[verifier::external_type_specification]
#[verifier::external_body]
pub struct ExUtf8Error(std::str::Utf8Error);

/// `std::str::from_utf8` accepts exactly the byte strings that are UTF-8, and
/// the text it returns consists of the characters that they encode.
pub assume_specification[ std::str::from_utf8 ](bytes: &[u8]) -> (text: Result<
    &str,
    std::str::Utf8Error,
>)
    ensures
        text is Ok <==> valid_utf8(bytes@),
        text matches Ok(read) ==> read@ == decode_utf8(bytes@),
;

/// The text that `bytes` encode.
pub fn decode(bytes: &[u8]) -> (text: Result<&str, SwitchError>)
    ensures
        match text {
            Ok(read) => valid_utf8(bytes@) && read@ == decode_utf8(bytes@),
            Err(error) => error == SwitchError::InvalidUtf8 && !valid_utf8(bytes@),
        },
{
    match std::str::from_utf8(bytes) {
        Ok(read) => Ok(read),
        Err(_) => Err(SwitchError::InvalidUtf8),
    }
}

/// Whether two texts consist of the same characters.
pub fn same_text(left: &str, right: &str) -> (same: bool)
    ensures
        same == (left@ == right@),
{
    let a = left.as_bytes();
    let b = right.as_bytes();
    proof {
        encode_utf8_decode_utf8(left@);
        encode_utf8_decode_utf8(right@);
    }
    if a.len() != b.len() {
        return false;
    }
    let mut at: usize = 0;
    while at < a.len()
        invariant
            a@ == encode_utf8(left@),
            b@ == encode_utf8(right@),
            a@.len() == b@.len(),
            at <= a@.len(),
            forall|k: int| 0 <= k < at ==> a@[k] == b@[k],
        decreases a@.len() - at,
    {
        if a[at] != b[at] {
            return false;
        }
        at += 1;
    }
    assert(a@ =~= b@);
    true
}

/// The characters of each of a list of strings.
pub open spec fn texts(strings: Seq<String>) -> Seq<Seq<char>> {
    strings.map_values(|string: String| string@)
}

/// The character that stands for a digit.
pub open spec fn digit(value: nat) -> char {
    if value == 0 {
        '0'
    } else if value == 1 {
        '1'
    } else if value == 2 {
        '2'
    } else if value == 3 {
        '3'
    } else if value == 4 {
        '4'
    } else if value == 5 {
        '5'
    } else if value == 6 {
        '6'
    } else if value == 7 {
        '7'
    } else if value == 8 {
        '8'
    } else {
        '9'
    }
}

/// A number written in decimal, without sign or leading zeros.
pub open spec fn decimal(number: nat) -> Seq<char>
    decreases number,
{
    if number < 10 {
        seq![digit(number)]
    } else {
        decimal(number / 10).push(digit(number % 10))
    }
}

/// The text of one digit.
fn digit_text(value: u64) -> (text: &'static str)
    requires
        value < 10,
    ensures
        text@ == seq![digit(value as nat)],
{
    proof {
        reveal_strlit("0");
        reveal_strlit("1");
        reveal_strlit("2");
        reveal_strlit("3");
        reveal_strlit("4");
        reveal_strlit("5");
        reveal_strlit("6");
        reveal_strlit("7");
        reveal_strlit("8");
        reveal_strlit("9");
    }
    let text = if value == 0 {
        "0"
    } else if value == 1 {
        "1"
    } else if value == 2 {
        "2"
    } else if value == 3 {
        "3"
    } else if value == 4 {
        "4"
    } else if value == 5 {
        "5"
    } else if value == 6 {
        "6"
    } else if value == 7 {
        "7"
    } else if value == 8 {
        "8"
    } else {
        "9"
    };
    assert(text@ =~= seq![digit(value as nat)]);
    text
}

/// Appends `number`, written in decimal, to `out`.
fn write_decimal(number: u64, out: &mut String)
    ensures
        final(out)@ == old(out)@ + decimal(number as nat),
    decreases number,
{
    if number >= 10 {
        write_decimal(number / 10, out);
    }
    out.append(digit_text(number % 10));
    assert(out@ =~= old(out)@ + decimal(number as nat));
}

/// `number` written in decimal.
pub fn to_decimal(number: u64) -> (text: String)
    ensures
        text@ == decimal(number as nat),
{
    let mut text = String::new();
    write_decimal(number, &mut text);
    assert(text@ =~= decimal(number as nat));
    text
}

} // verus!
