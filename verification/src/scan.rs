//! The rules of the scanner, stated over sequences of characters.

use vstd::prelude::*;
use crate::chars::{CharClass, Start, start_at};
use crate::err::{CompilationErrKind, CompilationErrView};
use crate::pos::PosView;
use crate::text::invalid_number_message;
use crate::token::TokenView;

verus! {

/// How often `c` occurs among the first `n` characters of `s`.
pub open spec fn count_in(s: Seq<char>, c: char, n: nat) -> nat
    decreases n,
{
    if n == 0 {
        0
    } else {
        count_in(s, c, (n - 1) as nat) + if s[n - 1] == c {
            1nat
        } else {
            0nat
        }
    }
}

/// How often `c` occurs in `s`.
pub open spec fn count(s: Seq<char>, c: char) -> nat {
    count_in(s, c, s.len())
}

/// Where the run of characters of `class` that begins at index `from` ends:
/// the index of the first character at or after `from` that is not of the
/// class, or the length of `s` where there is none.
pub open spec fn run_end(s: Seq<char>, from: nat, class: CharClass) -> nat
    decreases s.len() - from,
{
    if from < s.len() && class.holds(s[from as int]) {
        run_end(s, from + 1, class)
    } else {
        from
    }
}

/// The position at which the scanner stands once it has read the first `k`
/// characters of `input`: that of the last of them. A character lies on the
/// line after its predecessor if that was a newline, and one column further
/// on if not; columns are not counted anew for each line.
pub open spec fn position_after(file: Option<Seq<char>>, input: Seq<char>, k: nat) -> PosView {
    if k == 0 {
        PosView { file, line: 1, column: 0, raw: None }
    } else {
        let newlines = count_in(input, '\n', (k - 1) as nat);
        PosView {
            file,
            line: 1 + newlines,
            column: (k - newlines) as nat,
            raw: Some((k - 1) as nat),
        }
    }
}

/// What one pull hands out: a token with the position of its first
/// character, an error, or `None` at the end of the input.
pub type Lexeme = Option<Result<(TokenView, PosView), CompilationErrView>>;

/// The state of a scanner.
pub ghost struct LexerView {
    /// The whole source text.
    pub input: Seq<char>,
    /// How many characters of it have been read.
    pub cursor: nat,
    /// The character read last, or `None` before the first read and after
    /// a read that found the input exhausted.
    pub current: Option<char>,
    /// Where the scanner stands.
    pub position: PosView,
}

impl LexerView {
    /// The state before the first read.
    pub open spec fn start(input: Seq<char>) -> LexerView {
        LexerView { input, cursor: 0, current: None, position: PosView::start() }
    }

    /// The characters not read yet.
    pub open spec fn remaining(self) -> Seq<char> {
        self.input.skip(self.cursor as int)
    }

    /// The character that the next read will find, if there is one.
    pub open spec fn peek(self) -> Option<char> {
        if self.cursor < self.input.len() {
            Some(self.input[self.cursor as int])
        } else {
            None
        }
    }

    /// Whether the parts of the state agree: the current character is the
    /// one before the cursor, it is missing only at the very start or at the
    /// very end, and the position is that of the characters read so far.
    pub open spec fn wf(self) -> bool {
        &&& self.cursor <= self.input.len() <= usize::MAX
        &&& self.current matches Some(c) ==> self.cursor > 0 && self.input[self.cursor - 1] == c
        &&& self.current is None ==> self.cursor == 0 || self.cursor == self.input.len()
        &&& self.position == position_after(self.position.file, self.input, self.cursor)
    }

    /// The state after reading on until `k` characters have been read.
    pub open spec fn at(self, k: nat) -> LexerView
        recommends
            self.cursor <= k <= self.input.len(),
    {
        if k <= self.cursor {
            self
        } else {
            LexerView {
                input: self.input,
                cursor: k,
                current: Some(self.input[k - 1]),
                position: position_after(self.position.file, self.input, k),
            }
        }
    }

    /// The state after a read that found nothing left, having read on to the
    /// end of the input first.
    pub open spec fn end(self) -> LexerView {
        LexerView {
            input: self.input,
            cursor: self.input.len(),
            current: None,
            position: position_after(self.position.file, self.input, self.input.len()),
        }
    }

    /// The state after one read. At the end of the input a read finds
    /// nothing and leaves the position as it is.
    pub open spec fn read(self) -> LexerView {
        if self.cursor < self.input.len() {
            self.at(self.cursor + 1)
        } else {
            LexerView { current: None, ..self }
        }
    }

    /// The state after skipping horizontal whitespace: unchanged unless the
    /// current character is blank, else the first character after the run of
    /// blanks has been read, or the read after the last blank found nothing.
    pub open spec fn skip_blanks(self) -> LexerView {
        if self.current matches Some(c) && CharClass::Blank.holds(c) {
            let first = run_end(self.input, self.cursor, CharClass::Blank);
            if first < self.input.len() {
                self.at(first + 1)
            } else {
                self.end()
            }
        } else {
            self
        }
    }

    /// An identifier whose first character `c` has been read: the state
    /// after it, and its text. It ends before the first character that
    /// cannot continue an identifier.
    pub open spec fn scan_ident(self, c: char) -> (LexerView, Seq<char>) {
        let end = run_end(self.input, self.cursor, CharClass::IdentPart);
        (self.at(end), seq![c] + self.input.subrange(self.cursor as int, end as int))
    }

    /// A numeric literal whose first character `c` has been read: the state
    /// after it, and its text. It ends before the first character that is
    /// neither a digit nor a decimal point.
    pub open spec fn scan_num_text(self, c: char) -> (LexerView, Seq<char>) {
        let end = run_end(self.input, self.cursor, CharClass::NumChar);
        (self.at(end), seq![c] + self.input.subrange(self.cursor as int, end as int))
    }

    /// A numeric literal whose first character `c` has been read: the state
    /// after it, and its text, or the error where the text holds more than
    /// one decimal point. The message names the place where the text ends.
    pub open spec fn scan_num(self, c: char) -> (LexerView, Result<Seq<char>, CompilationErrView>) {
        let (after, text) = self.scan_num_text(c);
        (
            after,
            if count(text, '.') > 1 {
                Err(
                    CompilationErrView {
                        kind: CompilationErrKind::InvalidNumber,
                        message: invalid_number_message(text, after.position),
                    },
                )
            } else {
                Ok(text)
            },
        )
    }

    /// A string literal whose opening quote has been read: the state after
    /// it, and its text. The text ends before the first quote character,
    /// newline or `;`, or at the end of the input. A double quote that ends
    /// it is read too; any other character that ends it is left unread.
    pub open spec fn scan_string(self) -> (LexerView, Seq<char>) {
        let end = run_end(self.input, self.cursor, CharClass::StringBody);
        let after = if end < self.input.len() && self.input[end as int] == '"' {
            self.at(end + 1)
        } else {
            self.at(end)
        };
        (after, self.input.subrange(self.cursor as int, end as int))
    }

    /// The token that begins at the character `c`, which has been read: the
    /// state after the token, and the token or the error.
    pub open spec fn scan(self, c: char) -> (LexerView, Result<TokenView, CompilationErrView>) {
        match start_at(c, self.peek()) {
            Start::Assign => (self, Ok(TokenView::Assign(c))),
            Start::Plus => (self, Ok(TokenView::Plus(c))),
            Start::Minus => (self, Ok(TokenView::Minus(c))),
            Start::LCurly => (self, Ok(TokenView::LCurly(c))),
            Start::RCurly => (self, Ok(TokenView::RCurly(c))),
            Start::LParen => (self, Ok(TokenView::LParen(c))),
            Start::RParen => (self, Ok(TokenView::RParen(c))),
            Start::Quote => {
                let (after, text) = self.scan_string();
                (after, Ok(TokenView::String(text)))
            },
            Start::EndOfLine => (self, Ok(TokenView::EndOfLine)),
            Start::Ident => {
                let (after, text) = self.scan_ident(c);
                (after, Ok(TokenView::Ident(text)))
            },
            Start::Dot => (self, Ok(TokenView::Dot)),
            Start::Num => {
                let (after, number) = self.scan_num(c);
                (
                    after,
                    match number {
                        Ok(text) => Ok(TokenView::Num(text)),
                        Err(e) => Err(e),
                    },
                )
            },
            Start::Invalid => (self, Ok(TokenView::Invalid(c))),
        }
    }

    /// One pull: the state after it, and what it hands out. Blanks before
    /// the token are skipped; the token's position is that of its first
    /// character. Where only blanks are left, or nothing, the input is read
    /// to its end and the pull hands out `None`.
    pub open spec fn next(self) -> (LexerView, Lexeme) {
        let first = run_end(self.input, self.cursor, CharClass::Blank);
        if first < self.input.len() {
            let at = self.at(first + 1);
            let (after, token) = at.scan(self.input[first as int]);
            (
                after,
                Some(
                    match token {
                        Ok(t) => Ok((t, at.position)),
                        Err(e) => Err(e),
                    },
                ),
            )
        } else {
            (self.end(), None)
        }
    }
}

/// No more than `n` of the first `n` characters are `c`.
pub proof fn lemma_count_in_bound(s: Seq<char>, c: char, n: nat)
    ensures
        count_in(s, c, n) <= n,
    decreases n,
{
    if n > 0 {
        lemma_count_in_bound(s, c, (n - 1) as nat);
    }
}

/// A run ends at or after its start and within the text; every character
/// of it is of the class, and the character after it, if any, is not.
pub proof fn lemma_run_end(s: Seq<char>, from: nat, class: CharClass)
    requires
        from <= s.len(),
    ensures
        from <= run_end(s, from, class) <= s.len(),
        forall|i: int| from <= i < run_end(s, from, class) ==> class.holds(#[trigger] s[i]),
        run_end(s, from, class) < s.len() ==> !class.holds(s[run_end(s, from, class) as int]),
    decreases s.len() - from,
{
    if from < s.len() && class.holds(s[from as int]) {
        lemma_run_end(s, from + 1, class);
    }
}

/// The end of a run is the only index with the properties of
/// [`lemma_run_end`].
pub proof fn lemma_run_end_is(s: Seq<char>, from: nat, class: CharClass, end: nat)
    requires
        from <= end <= s.len(),
        forall|i: int| from <= i < end ==> class.holds(#[trigger] s[i]),
        end < s.len() ==> !class.holds(s[end as int]),
    ensures
        run_end(s, from, class) == end,
    decreases end - from,
{
    if from < end {
        assert(class.holds(s[from as int]));
        lemma_run_end_is(s, from + 1, class, end);
    }
}

/// The position moves with every character read: the raw offset grows by
/// one; the line grows by one if the character left behind was a newline,
/// and the column grows by one if it was not, or if there was none.
pub proof fn lemma_position_step(file: Option<Seq<char>>, input: Seq<char>, k: nat)
    ensures
        position_after(file, input, k + 1) == position_after(file, input, k).advance(
            k > 0 && input[k - 1] == '\n',
        ),
{
    if k > 0 {
        lemma_count_in_bound(input, '\n', (k - 1) as nat);
    }
}

/// While characters are left, a read moves the position by one step, to
/// the next line if the current character is a newline and to the next
/// column if not, and the counters of that step fit the machine.
pub proof fn lemma_read_advances(s: LexerView)
    requires
        s.wf(),
        s.cursor < s.input.len(),
    ensures
        s.position.can_advance(s.current == Some('\n')),
        s.read().position == s.position.advance(s.current == Some('\n')),
{
    lemma_position_step(s.position.file, s.input, s.cursor);
    if s.cursor > 0 {
        lemma_count_in_bound(s.input, '\n', (s.cursor - 1) as nat);
    }
}

/// Reading on leads from a valid state to a valid state.
pub proof fn lemma_at_wf(s: LexerView, k: nat)
    requires
        s.wf(),
        s.cursor <= k <= s.input.len(),
        k == s.cursor ==> s.current is Some,
    ensures
        s.at(k).wf(),
        s.at(k).current is Some,
        s.at(k).input == s.input,
        s.at(k).cursor == k,
        s.at(k).position.file == s.position.file,
{
}

/// One read and the skipping of blanks lead to the first character that is
/// not blank, or to the end of the input where there is none.
pub proof fn lemma_read_skip_blanks(s: LexerView)
    requires
        s.wf(),
    ensures
        ({
            let first = run_end(s.input, s.cursor, CharClass::Blank);
            s.read().skip_blanks() == if first < s.input.len() {
                s.at(first + 1)
            } else {
                s.end()
            }
        }),
{
    let first = run_end(s.input, s.cursor, CharClass::Blank);
    lemma_run_end(s.input, s.cursor, CharClass::Blank);
    if s.cursor < s.input.len() && CharClass::Blank.holds(s.input[s.cursor as int]) {
        assert(first == run_end(s.input, s.cursor + 1, CharClass::Blank));
    }
}

} // verus!
