//! Character classes of the scanner, and the decision which token begins at
//! a character.

use vstd::prelude::*;

verus! {

/// Whether Unicode gives `c` the `Alphabetic` property.
pub uninterp spec fn unicode_alphabetic(c: char) -> bool;

/// Whether `c` lies in one of Unicode's general categories for numbers.
pub uninterp spec fn unicode_numeric(c: char) -> bool;

/// `char::is_alphabetic` answers by the Unicode `Alphabetic` property, a
/// fixed table: the result depends on the character alone. Nothing is
/// claimed about which characters have the property.
pub assume_specification[ char::is_alphabetic ](c: char) -> (b: bool)
    ensures
        b == unicode_alphabetic(c),
;

/// `char::is_numeric` answers by Unicode's general categories for numbers,
/// a fixed table: the result depends on the character alone. Nothing is
/// claimed about which characters lie in them.
pub assume_specification[ char::is_numeric ](c: char) -> (b: bool)
    ensures
        b == unicode_numeric(c),
;

/// `char::is_alphanumeric` is documented to hold exactly of the characters
/// of which `is_alphabetic` or `is_numeric` holds.
pub assume_specification[ char::is_alphanumeric ](c: char) -> (b: bool)
    ensures
        b == (unicode_alphabetic(c) || unicode_numeric(c)),
;

/// Horizontal whitespace: a space or a tab.
pub open spec fn is_blank(c: char) -> bool {
    c == ' ' || c == '\t'
}

/// A character that can begin an identifier.
pub open spec fn is_ident_start(c: char) -> bool {
    unicode_alphabetic(c) || c == '_'
}

/// A character that can continue an identifier.
pub open spec fn is_ident_part(c: char) -> bool {
    unicode_alphabetic(c) || unicode_numeric(c) || c == '_'
}

/// A character of a numeric literal: a digit or the decimal point.
pub open spec fn is_num_char(c: char) -> bool {
    unicode_numeric(c) || c == '.'
}

/// A character that opens a string literal.
pub open spec fn is_quote(c: char) -> bool {
    c == '"' || c == '\'' || c == '`'
}

/// A character that ends a statement.
pub open spec fn is_separator(c: char) -> bool {
    c == '\n' || c == ';'
}

/// A character before which the text of a string literal ends.
pub open spec fn is_string_end(c: char) -> bool {
    is_quote(c) || is_separator(c)
}

/// The sets of characters that the scanner reads in runs.
pub enum CharClass {
    /// Horizontal whitespace.
    Blank,
    /// Characters that continue an identifier.
    IdentPart,
    /// Characters of a numeric literal.
    NumChar,
    /// Characters inside a string literal.
    StringBody,
}

impl CharClass {
    /// Whether `c` belongs to the class.
    pub open spec fn holds(self, c: char) -> bool {
        match self {
            CharClass::Blank => is_blank(c),
            CharClass::IdentPart => is_ident_part(c),
            CharClass::NumChar => is_num_char(c),
            CharClass::StringBody => !is_string_end(c),
        }
    }
}

/// What begins at a significant character.
#[derive(Debug, Clone, Copy, PartialEq, Eq, Structural)]
pub enum Start {
    /// `=`
    Assign,
    /// `+`
    Plus,
    /// `-`
    Minus,
    /// `{`
    LCurly,
    /// `}`
    RCurly,
    /// `(`
    LParen,
    /// `)`
    RParen,
    /// A quote character: a string literal follows.
    Quote,
    /// A newline or `;`.
    EndOfLine,
    /// The first character of an identifier.
    Ident,
    /// A `.` that accesses a member: an identifier follows it.
    Dot,
    /// The first character of a numeric literal.
    Num,
    /// Nothing the language knows.
    Invalid,
}

/// The decision table of the scanner. `ident_start` and `num_char` say
/// whether `c` can begin an identifier and whether it belongs to a numeric
/// literal; `ident_follows` says whether the character after `c` can begin
/// an identifier. Operators, quotes and separators are recognised by the
/// character itself; an identifier is preferred to a member access, and a
/// member access to a number.
pub open spec fn start_of(c: char, ident_start: bool, ident_follows: bool, num_char: bool) -> Start {
    if c == '=' {
        Start::Assign
    } else if c == '+' {
        Start::Plus
    } else if c == '-' {
        Start::Minus
    } else if c == '{' {
        Start::LCurly
    } else if c == '}' {
        Start::RCurly
    } else if c == '(' {
        Start::LParen
    } else if c == ')' {
        Start::RParen
    } else if is_quote(c) {
        Start::Quote
    } else if is_separator(c) {
        Start::EndOfLine
    } else if ident_start {
        Start::Ident
    } else if c == '.' && ident_follows {
        Start::Dot
    } else if num_char {
        Start::Num
    } else {
        Start::Invalid
    }
}

/// What begins at `c` when `next` is the character after it, if there is one.
pub open spec fn start_at(c: char, next: Option<char>) -> Start {
    start_of(
        c,
        is_ident_start(c),
        next matches Some(n) && is_ident_start(n),
        is_num_char(c),
    )
}

/// Decides what begins at `c`, given the answers about `c` and about the
/// character after it.
pub fn classify(c: char, ident_start: bool, ident_follows: bool, num_char: bool) -> (s: Start)
    ensures
        s == start_of(c, ident_start, ident_follows, num_char),
{
    match c {
        '=' => Start::Assign,
        '+' => Start::Plus,
        '-' => Start::Minus,
        '{' => Start::LCurly,
        '}' => Start::RCurly,
        '(' => Start::LParen,
        ')' => Start::RParen,
        '"' | '\'' | '`' => Start::Quote,
        '\n' | ';' => Start::EndOfLine,
        o => {
            if ident_start {
                Start::Ident
            } else if o == '.' && ident_follows {
                Start::Dot
            } else if num_char {
                Start::Num
            } else {
                Start::Invalid
            }
        },
    }
}

} // verus!
