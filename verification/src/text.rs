//! Numbers as text.

use vstd::prelude::*;
use vstd::string::StringExecFns;

verus! {

/// The text of a digit below sixteen.
pub open spec fn digit_text(digit: int) -> Seq<char> {
    if digit == 0 {
        "0"@
    } else if digit == 1 {
        "1"@
    } else if digit == 2 {
        "2"@
    } else if digit == 3 {
        "3"@
    } else if digit == 4 {
        "4"@
    } else if digit == 5 {
        "5"@
    } else if digit == 6 {
        "6"@
    } else if digit == 7 {
        "7"@
    } else if digit == 8 {
        "8"@
    } else if digit == 9 {
        "9"@
    } else if digit == 10 {
        "A"@
    } else if digit == 11 {
        "B"@
    } else if digit == 12 {
        "C"@
    } else if digit == 13 {
        "D"@
    } else if digit == 14 {
        "E"@
    } else {
        "F"@
    }
}

/// A number in base ten.
pub open spec fn decimal(number: nat) -> Seq<char>
    decreases number,
{
    if number < 10 {
        digit_text(number as int)
    } else {
        decimal(number / 10) + digit_text((number % 10) as int)
    }
}

/// A signed number in base ten.
pub open spec fn signed_decimal(number: int) -> Seq<char> {
    if number < 0 {
        "-"@ + decimal((-number) as nat)
    } else {
        decimal(number as nat)
    }
}

/// The digits of a number in base sixteen, with capital letters.
pub open spec fn hexadecimal_digits(number: nat) -> Seq<char>
    decreases number,
{
    if number < 16 {
        digit_text(number as int)
    } else {
        hexadecimal_digits(number / 16) + digit_text((number % 16) as int)
    }
}

/// A number in base sixteen, after `0x`.
pub open spec fn hexadecimal(number: nat) -> Seq<char> {
    "0x"@ + hexadecimal_digits(number)
}

fn digit_str(digit: u64) -> (text: &'static str)
    requires
        digit < 16,
    ensures
        text@ == digit_text(digit as int),
{
    match digit {
        0 => "0",
        1 => "1",
        2 => "2",
        3 => "3",
        4 => "4",
        5 => "5",
        6 => "6",
        7 => "7",
        8 => "8",
        9 => "9",
        10 => "A",
        11 => "B",
        12 => "C",
        13 => "D",
        14 => "E",
        _ => "F",
    }
}

/// The text of a number in base ten.
pub fn decimal_string(number: u64) -> (text: String)
    ensures
        text@ == decimal(number as nat),
    decreases number,
{
    if number < 10 {
        digit_str(number).to_owned()
    } else {
        decimal_string(number / 10).concat(digit_str(number % 10))
    }
}

fn hexadecimal_digits_string(number: u64) -> (text: String)
    ensures
        text@ == hexadecimal_digits(number as nat),
    decreases number,
{
    if number < 16 {
        digit_str(number).to_owned()
    } else {
        hexadecimal_digits_string(number / 16).concat(digit_str(number % 16))
    }
}

/// The text of a signed number in base ten.
pub fn signed_decimal_string(number: i64) -> (text: String)
    ensures
        text@ == signed_decimal(number as int),
{
    if number < 0 {
        let magnitude: u64 = if number == i64::MIN {
            0x8000_0000_0000_0000
        } else {
            (-number) as u64
        };
        "-".to_owned().concat(decimal_string(magnitude).as_str())
    } else {
        decimal_string(number as u64)
    }
}

/// The text of a number in base sixteen, after `0x`.
pub fn hexadecimal_string(number: u64) -> (text: String)
    ensures
        text@ == hexadecimal(number as nat),
{
    "0x".to_owned().concat(hexadecimal_digits_string(number).as_str())
}

} // verus!
