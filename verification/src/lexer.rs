//! The scanner: it reads source text one character at a time and hands out
//! one token for each pull.

use vstd::prelude::*;
use crate::chars::{CharClass, Start, classify, is_ident_part, is_ident_start, is_num_char, is_string_end};
use crate::err::{CompilationErr, CompilationErrKind, CompilationErrView};
use crate::pos::Pos;
use crate::scan::{
    LexerView, Lexeme, count, count_in, lemma_at_wf, lemma_count_in_bound, lemma_read_advances,
    lemma_read_skip_blanks, lemma_run_end, lemma_run_end_is,
};
use crate::text::{internal_message, internal_text, invalid_number_text, invalid_string_text};
use crate::token::Token;

verus! {

/// A scanner over one source text, which it owns.
#[derive(Debug)]
pub struct Lexer {
    input: Vec<char>,
    cursor: usize,
    position: Pos,
    ch: Option<char>,
}

impl View for Lexer {
    type V = LexerView;

    closed spec fn view(&self) -> LexerView {
        LexerView {
            input: self.input@,
            cursor: self.cursor as nat,
            current: self.ch,
            position: self.position@,
        }
    }
}

/// The mathematical value of what a pull hands out.
pub open spec fn lexeme_view(item: Option<Result<(Token, Pos), CompilationErr>>) -> Lexeme {
    match item {
        Some(Ok((token, pos))) => Some(Ok((token@, pos@))),
        Some(Err(e)) => Some(Err(e@)),
        None => None,
    }
}

/// The error for a state that the scanner's own rules exclude.
pub open spec fn internal_error() -> CompilationErrView {
    CompilationErrView { kind: CompilationErrKind::Unreachable, message: internal_message() }
}

fn count_dots(text: &Vec<char>) -> (n: usize)
    ensures
        n == count(text@, '.'),
{
    let mut n: usize = 0;
    let mut i: usize = 0;
    while i < text.len()
        invariant
            i <= text.len(),
            n == count_in(text@, '.', i as nat),
        decreases text.len() - i,
    {
        proof {
            lemma_count_in_bound(text@, '.', i as nat);
        }
        if text[i] == '.' {
            n += 1;
        }
        i += 1;
    }
    n
}

impl Lexer {
    /// A scanner at the start of `input`.
    pub fn new(input: &str) -> (lexer: Self)
        ensures
            lexer@ == LexerView::start(input@),
            lexer@.wf(),
    {
        let mut chars: Vec<char> = Vec::new();
        for c in it: input.chars()
            invariant
                chars@ == it.seq().take(it.index() as int),
        {
            chars.push(c);
        }
        assert(chars@ == input@);
        assert(chars@.len() == chars.len());
        Lexer { input: chars, cursor: 0, position: Pos::default(), ch: None }
    }

    /// Reads one character: it becomes the current one and the position
    /// moves to it. At the end of the input there is no current character
    /// any more, and the position stays.
    fn read_char(&mut self) -> (c: Option<char>)
        requires
            old(self)@.wf(),
        ensures
            final(self)@.wf(),
            final(self)@ == old(self)@.read(),
            c == final(self)@.current,
    {
        if self.cursor < self.input.len() {
            proof {
                lemma_read_advances(self@);
            }
            self.position.advance(self.ch == Some('\n')).unwrap();
            self.ch = Some(self.input[self.cursor]);
            self.cursor += 1;
        } else {
            self.ch = None;
        }
        self.ch
    }

    /// The character that the next read will find.
    fn peek(&self) -> (c: Option<&char>)
        requires
            self@.wf(),
        ensures
            c matches Some(n) ==> self@.peek() == Some(*n),
            c is None ==> self@.peek() is None,
    {
        if self.cursor < self.input.len() {
            Some(&self.input[self.cursor])
        } else {
            None
        }
    }

    fn is_whitespace(&self) -> (b: bool)
        ensures
            b == (self@.current matches Some(c) && CharClass::Blank.holds(c)),
    {
        match self.ch {
            Some(ch) => matches!(ch, ' ' | '\t'),
            _ => false,
        }
    }

    fn is_alphabetic(ch: Option<&char>) -> (b: bool)
        ensures
            b == (ch matches Some(c) && is_ident_start(*c)),
    {
        match ch {
            Some(c) => c.is_alphabetic() || *c == '_',
            None => false,
        }
    }

    fn is_alphanumeric(ch: Option<&char>) -> (b: bool)
        ensures
            b == (ch matches Some(c) && is_ident_part(*c)),
    {
        match ch {
            Some(c) => c.is_alphanumeric() || *c == '_',
            None => false,
        }
    }

    fn is_num_char(ch: Option<&char>) -> (b: bool)
        ensures
            b == (ch matches Some(c) && is_num_char(*c)),
    {
        match ch {
            Some(c) => c.is_numeric() || *c == '.',
            None => false,
        }
    }

    fn is_string_char(ch: Option<&char>) -> (b: bool)
        ensures
            b == (ch matches Some(c) && !is_string_end(*c)),
    {
        match ch {
            Some(c) => !matches!(*c, '"' | '\'' | '`' | '\n' | ';'),
            None => false,
        }
    }

    /// Reads the rest of an identifier whose first character is the current one.
    fn read_ident(&mut self) -> (r: Result<Vec<char>, CompilationErr>)
        requires
            old(self)@.wf(),
        ensures
            final(self)@.wf(),
            match old(self)@.current {
                Some(c) => {
                    &&& final(self)@ == old(self)@.scan_ident(c).0
                    &&& r matches Ok(text) && text@ == old(self)@.scan_ident(c).1
                },
                None => {
                    &&& final(self)@ == old(self)@
                    &&& r matches Err(e) && e@ == internal_error()
                },
            },
    {
        let first = match self.ch {
            Some(c) => c,
            None => {
                return Err(
                    CompilationErr { kind: CompilationErrKind::Unreachable, message: internal_text() },
                );
            },
        };
        let mut ident = vec![first];
        let ghost start = self@;
        while Self::is_alphanumeric(self.peek())
            invariant
                start.wf(),
                start.current is Some,
                self@.wf(),
                start.cursor <= self@.cursor,
                self@ == start.at(self@.cursor),
                forall|i: int| start.cursor <= i < self@.cursor ==> is_ident_part(#[trigger] start.input[i]),
                ident@ == seq![first] + start.input.subrange(start.cursor as int, self@.cursor as int),
            decreases self@.input.len() - self@.cursor,
        {
            proof {
                lemma_at_wf(start, self@.cursor);
            }
            if let Some(c) = self.read_char() {
                ident.push(c);
            }
        }
        proof {
            lemma_at_wf(start, self@.cursor);
            lemma_run_end_is(start.input, start.cursor, CharClass::IdentPart, self@.cursor);
        }
        Ok(ident)
    }

    /// Reads the rest of a numeric literal whose first character is the
    /// current one, and refuses it if it holds more than one decimal point.
    fn read_num(&mut self) -> (r: Result<Vec<char>, CompilationErr>)
        requires
            old(self)@.wf(),
        ensures
            final(self)@.wf(),
            match old(self)@.current {
                Some(c) => {
                    &&& final(self)@ == old(self)@.scan_num(c).0
                    &&& match r {
                        Ok(text) => old(self)@.scan_num(c).1 == Ok::<Seq<char>, CompilationErrView>(text@),
                        Err(e) => old(self)@.scan_num(c).1 == Err::<Seq<char>, CompilationErrView>(e@),
                    }
                },
                None => {
                    &&& final(self)@ == old(self)@
                    &&& r matches Err(e) && e@ == internal_error()
                },
            },
    {
        let first = match self.ch {
            Some(c) => c,
            None => {
                return Err(
                    CompilationErr { kind: CompilationErrKind::Unreachable, message: internal_text() },
                );
            },
        };
        let mut num = vec![first];
        let ghost start = self@;
        while Self::is_num_char(self.peek())
            invariant
                start.wf(),
                start.current is Some,
                self@.wf(),
                start.cursor <= self@.cursor,
                self@ == start.at(self@.cursor),
                forall|i: int| start.cursor <= i < self@.cursor ==> is_num_char(#[trigger] start.input[i]),
                num@ == seq![first] + start.input.subrange(start.cursor as int, self@.cursor as int),
            decreases self@.input.len() - self@.cursor,
        {
            proof {
                lemma_at_wf(start, self@.cursor);
            }
            if let Some(c) = self.read_char() {
                num.push(c);
            }
        }
        proof {
            lemma_at_wf(start, self@.cursor);
            lemma_run_end_is(start.input, start.cursor, CharClass::NumChar, self@.cursor);
        }
        if count_dots(&num) > 1 {
            return Err(
                CompilationErr {
                    kind: CompilationErrKind::InvalidNumber,
                    message: invalid_number_text(&num, &self.position),
                },
            );
        }
        Ok(num)
    }

    /// Reads the text of a string literal whose opening quote is the current
    /// character, and the double quote that closes it, if one does.
    fn read_string(&mut self) -> (r: Result<Vec<char>, CompilationErr>)
        requires
            old(self)@.wf(),
            old(self)@.current is Some,
        ensures
            final(self)@.wf(),
            final(self)@ == old(self)@.scan_string().0,
            r matches Ok(text) && text@ == old(self)@.scan_string().1,
    {
        let mut string: Vec<char> = Vec::new();
        let ghost start = self@;
        while Self::is_string_char(self.peek())
            invariant
                start.wf(),
                start.current is Some,
                self@.wf(),
                start.cursor <= self@.cursor,
                self@ == start.at(self@.cursor),
                forall|i: int| start.cursor <= i < self@.cursor ==> !is_string_end(#[trigger] start.input[i]),
                string@ == start.input.subrange(start.cursor as int, self@.cursor as int),
            decreases self@.input.len() - self@.cursor,
        {
            proof {
                lemma_at_wf(start, self@.cursor);
            }
            if let Some(c) = self.read_char() {
                string.push(c);
            }
        }
        proof {
            lemma_at_wf(start, self@.cursor);
            lemma_run_end_is(start.input, start.cursor, CharClass::StringBody, self@.cursor);
        }
        let closed = match self.peek() {
            Some(c) => *c == '"',
            None => false,
        };
        if closed {
            self.read_char();
        }
        Ok(string)
    }

    /// Reads on while the current character is horizontal whitespace.
    fn take_whitespace(&mut self)
        requires
            old(self)@.wf(),
        ensures
            final(self)@.wf(),
            final(self)@ == old(self)@.skip_blanks(),
    {
        let ghost start = self@;
        while self.is_whitespace()
            invariant
                start.wf(),
                self@.wf(),
                self@.input == start.input,
                self@.position.file == start.position.file,
                start.cursor <= self@.cursor,
                self@.current is Some ==> forall|i: int|
                    start.cursor <= i < self@.cursor - 1 ==> CharClass::Blank.holds(#[trigger] start.input[i]),
                self@.current is None ==> forall|i: int|
                    start.cursor <= i < self@.cursor ==> CharClass::Blank.holds(#[trigger] start.input[i]),
                self@.current is Some ==> self@ == start.at(self@.cursor),
                self@.current is None && self@ != start ==> self@ == start.end(),
                self@ != start ==> (start.current matches Some(c) && CharClass::Blank.holds(c)),
            decreases self@.input.len() - self@.cursor + if self@.current is Some { 1nat } else { 0nat },
        {
            let ghost before = self@;
            self.read_char();
            proof {
                if before.cursor < before.input.len() {
                    lemma_at_wf(before, before.cursor + 1);
                }
            }
        }
        proof {
            if start.current matches Some(c) && CharClass::Blank.holds(c) {
                if self@.current is Some {
                    lemma_run_end_is(
                        start.input,
                        start.cursor,
                        CharClass::Blank,
                        (self@.cursor - 1) as nat,
                    );
                } else {
                    lemma_run_end_is(start.input, start.cursor, CharClass::Blank, self@.cursor);
                }
            }
        }
    }

    /// Hands out the next token with the position of its first character,
    /// an error, or `None` once the input is exhausted.
    pub fn next(&mut self) -> (item: Option<Result<(Token, Pos), CompilationErr>>)
        requires
            old(self)@.wf(),
        ensures
            final(self)@.wf(),
            final(self)@ == old(self)@.next().0,
            lexeme_view(item) == old(self)@.next().1,
    {
        proof {
            lemma_read_skip_blanks(self@);
            lemma_run_end(self@.input, self@.cursor, CharClass::Blank);
        }
        self.read_char();
        self.take_whitespace();
        let pos = self.position.clone();
        match self.ch {
            Some(ch) => {
                let start = classify(
                    ch,
                    Self::is_alphabetic(Some(&ch)),
                    Self::is_alphabetic(self.peek()),
                    Self::is_num_char(Some(&ch)),
                );
                match start {
                    Start::Assign => Some(Ok((Token::Assign(ch), pos))),
                    Start::Plus => Some(Ok((Token::Plus(ch), pos))),
                    Start::Minus => Some(Ok((Token::Minus(ch), pos))),
                    Start::LCurly => Some(Ok((Token::LCurly(ch), pos))),
                    Start::RCurly => Some(Ok((Token::RCurly(ch), pos))),
                    Start::LParen => Some(Ok((Token::LParen(ch), pos))),
                    Start::RParen => Some(Ok((Token::RParen(ch), pos))),
                    Start::Quote => Some(
                        match self.read_string() {
                            Ok(string) => Ok((Token::String(string), pos)),
                            Err(_) => Err(
                                CompilationErr {
                                    kind: CompilationErrKind::InvalidString,
                                    message: invalid_string_text(&self.position),
                                },
                            ),
                        },
                    ),
                    Start::EndOfLine => Some(Ok((Token::EndOfLine, pos))),
                    Start::Ident => Some(
                        match self.read_ident() {
                            Ok(ident) => Ok((Token::Ident(ident), pos)),
                            Err(e) => Err(e),
                        },
                    ),
                    Start::Dot => Some(Ok((Token::Dot, pos))),
                    Start::Num => Some(
                        match self.read_num() {
                            Ok(num) => Ok((Token::Num(num), pos)),
                            Err(e) => Err(e),
                        },
                    ),
                    Start::Invalid => Some(Ok((Token::Invalid(ch), pos))),
                }
            },
            None => None,
        }
    }
}

} // verus!
