//! The wording of error messages.

use vstd::prelude::*;
use vstd::string::StringExecFns;
use crate::pos::{Pos, PosView};

verus! {

/// `String::push` appends the given character to the end of the string.
pub assume_specification[ std::string::String::push ](s: &mut std::string::String, ch: char)
    ensures
        final(s)@ == old(s)@.push(ch),
;

/// The decimal digit for `d`.
pub open spec fn digit(d: nat) -> char
    recommends
        d < 10,
{
    seq!['0', '1', '2', '3', '4', '5', '6', '7', '8', '9'][d as int]
}

/// `n` written in decimal, without leading zeros.
pub open spec fn decimal(n: nat) -> Seq<char>
    decreases n,
{
    if n < 10 {
        seq![digit(n)]
    } else {
        decimal(n / 10).push(digit(n % 10))
    }
}

/// The name of the file of `pos`, or nothing where it has none.
pub open spec fn file_name(pos: PosView) -> Seq<char> {
    match pos.file {
        Some(name) => name,
        None => Seq::empty(),
    }
}

/// The message for a numeric literal `text` with more than one decimal
/// point, found when the scanner stood at `pos`.
pub open spec fn invalid_number_message(text: Seq<char>, pos: PosView) -> Seq<char> {
    "Invalid number "@ + text + " at: "@ + file_name(pos) + ":"@ + decimal(pos.line) + ":"@
        + decimal(pos.column)
}

/// The message for a malformed string literal, found when the scanner stood
/// at `pos`.
pub open spec fn invalid_string_message(pos: PosView) -> Seq<char> {
    "Invalid String found at: "@ + file_name(pos) + ":"@ + decimal(pos.line) + ","@ + decimal(
        pos.column,
    )
}

/// The message for a state that the scanner's own rules exclude.
pub open spec fn internal_message() -> Seq<char> {
    "Reached unreachable. This is an error within renrs-lang itself.\nReport this bug on Github: https://github.com/FaCsaba/renrs-lang/issues"@
}

fn digit_char(d: usize) -> (c: char)
    requires
        d < 10,
    ensures
        c == digit(d as nat),
{
    match d {
        0 => '0',
        1 => '1',
        2 => '2',
        3 => '3',
        4 => '4',
        5 => '5',
        6 => '6',
        7 => '7',
        8 => '8',
        _ => '9',
    }
}

/// Appends `n` in decimal to `out`.
pub fn push_decimal(out: &mut String, n: usize)
    ensures
        final(out)@ == old(out)@ + decimal(n as nat),
    decreases n,
{
    if n >= 10 {
        push_decimal(out, n / 10);
    }
    out.push(digit_char(n % 10));
}

/// Appends the characters of `text` to `out`.
pub fn push_chars(out: &mut String, text: &Vec<char>)
    ensures
        final(out)@ == old(out)@ + text@,
{
    let mut i: usize = 0;
    while i < text.len()
        invariant
            i <= text.len(),
            out@ == old(out)@ + text@.take(i as int),
        decreases text.len() - i,
    {
        out.push(text[i]);
        i += 1;
    }
}

fn push_place(out: &mut String, pos: &Pos, between: &str)
    ensures
        final(out)@ == old(out)@ + file_name(pos@) + ":"@ + decimal(pos@.line) + between@
            + decimal(pos@.column),
{
    match pos.file() {
        Some(name) => out.append(name),
        None => {},
    }
    out.append(":");
    push_decimal(out, pos.line());
    out.append(between);
    push_decimal(out, pos.column());
}

/// Builds the message for a numeric literal with more than one decimal point.
pub fn invalid_number_text(text: &Vec<char>, pos: &Pos) -> (msg: String)
    ensures
        msg@ == invalid_number_message(text@, pos@),
{
    let mut msg = String::new();
    msg.append("Invalid number ");
    push_chars(&mut msg, text);
    msg.append(" at: ");
    push_place(&mut msg, pos, ":");
    msg
}

/// Builds the message for a malformed string literal.
pub fn invalid_string_text(pos: &Pos) -> (msg: String)
    ensures
        msg@ == invalid_string_message(pos@),
{
    let mut msg = String::new();
    msg.append("Invalid String found at: ");
    push_place(&mut msg, pos, ",");
    msg
}

/// Builds the message for a state that the scanner's own rules exclude.
pub fn internal_text() -> (msg: String)
    ensures
        msg@ == internal_message(),
{
    String::from_str(
        "Reached unreachable. This is an error within renrs-lang itself.\nReport this bug on Github: https://github.com/FaCsaba/renrs-lang/issues",
    )
}

} // verus!
