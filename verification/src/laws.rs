//! What holds of every scan.

use vstd::prelude::*;
use crate::chars::{CharClass, is_blank};
use crate::err::{CompilationErrKind, CompilationErrView};
use crate::pos::PosView;
use crate::scan::{
    LexerView, Lexeme, count_in, lemma_at_wf, lemma_run_end, lemma_run_end_is, position_after,
    run_end,
};
use crate::token::TokenView;

verus! {

/// A pull leads from a valid state to a valid state over the same input. It
/// never moves back, and it reads at least one character when it hands out
/// a token or an error. When it hands out `None`, the input has been read
/// to its end.
pub proof fn lemma_next_progress(s: LexerView)
    requires
        s.wf(),
    ensures
        s.next().0.wf(),
        s.next().0.input == s.input,
        s.next().0.position.file == s.position.file,
        s.cursor <= s.next().0.cursor,
        s.next().1 is Some ==> s.cursor < s.next().0.cursor,
        s.next().1 is None ==> s.next().0 == s.end(),
{
    let first = run_end(s.input, s.cursor, CharClass::Blank);
    lemma_run_end(s.input, s.cursor, CharClass::Blank);
    if first < s.input.len() {
        let at = s.at(first + 1);
        lemma_at_wf(s, first + 1);
        lemma_run_end(s.input, at.cursor, CharClass::StringBody);
        lemma_run_end(s.input, at.cursor, CharClass::IdentPart);
        lemma_run_end(s.input, at.cursor, CharClass::NumChar);
        let e = run_end(s.input, at.cursor, CharClass::StringBody);
        lemma_at_wf(at, e);
        if e < s.input.len() {
            lemma_at_wf(at, e + 1);
        }
        lemma_at_wf(at, run_end(s.input, at.cursor, CharClass::IdentPart));
        lemma_at_wf(at, run_end(s.input, at.cursor, CharClass::NumChar));
    }
}

/// Once the input is exhausted it stays so: where a pull hands out `None`,
/// every later pull hands out `None` too and leaves the state as it is. A
/// pull hands out `None` whenever nothing is left to read, as at the start
/// of an empty input.
pub proof fn lemma_end_is_final(s: LexerView)
    requires
        s.wf(),
    ensures
        s.cursor == s.input.len() ==> s.next().1 is None,
        s.next().1 is None ==> s.next().0.next() == (s.next().0, None::<Result<(TokenView, PosView), CompilationErrView>>),
{
    lemma_next_progress(s);
}

/// The only error that a pull reports is a numeric literal with more than
/// one decimal point: no text makes a string literal malformed, and none
/// leads the scanner into a state that its rules exclude.
pub proof fn lemma_errors_are_invalid_numbers(s: LexerView)
    ensures
        s.next().1 matches Some(Err(e)) ==> e.kind == CompilationErrKind::InvalidNumber,
{
}

impl LexerView {
    /// All that the pulls from this state on hand out before the first `None`.
    pub open spec fn tokens(self) -> Seq<Result<(TokenView, PosView), CompilationErrView>>
        decreases self.input.len() - self.cursor,
        when self.wf()
    {
        match self.next().1 {
            Some(item) => {
                proof {
                    lemma_next_progress(self);
                }
                seq![item] + self.next().0.tokens()
            },
            None => Seq::empty(),
        }
    }
}

/// One of the seven operators and brackets that are a token by themselves.
pub open spec fn is_operator(c: char) -> bool {
    c == '=' || c == '+' || c == '-' || c == '{' || c == '}' || c == '(' || c == ')'
}

/// The token that an operator or bracket is.
pub open spec fn operator_token(c: char) -> TokenView
    recommends
        is_operator(c),
{
    if c == '=' {
        TokenView::Assign(c)
    } else if c == '+' {
        TokenView::Plus(c)
    } else if c == '-' {
        TokenView::Minus(c)
    } else if c == '{' {
        TokenView::LCurly(c)
    } else if c == '}' {
        TokenView::RCurly(c)
    } else if c == '(' {
        TokenView::LParen(c)
    } else {
        TokenView::RParen(c)
    }
}

/// From a state in which only operators and brackets are left to read, the
/// pulls hand out one token for each of them, in order, each with the
/// character it was made from and the position of that character.
pub proof fn lemma_operators_from(s: LexerView)
    requires
        s.wf(),
        forall|i: int| s.cursor <= i < s.input.len() ==> is_operator(#[trigger] s.input[i]),
    ensures
        s.tokens() == Seq::new(
            (s.input.len() - s.cursor) as nat,
            |j: int|
                Ok::<(TokenView, PosView), CompilationErrView>(
                    (
                        operator_token(s.input[s.cursor + j]),
                        position_after(s.position.file, s.input, (s.cursor + j + 1) as nat),
                    ),
                ),
        ),
    decreases s.input.len() - s.cursor,
{
    let expected = Seq::new(
        (s.input.len() - s.cursor) as nat,
        |j: int|
            Ok::<(TokenView, PosView), CompilationErrView>(
                (
                    operator_token(s.input[s.cursor + j]),
                    position_after(s.position.file, s.input, (s.cursor + j + 1) as nat),
                ),
            ),
    );
    if s.cursor < s.input.len() {
        let c = s.input[s.cursor as int];
        assert(is_operator(c));
        assert(run_end(s.input, s.cursor, CharClass::Blank) == s.cursor);
        let at = s.at(s.cursor + 1);
        lemma_at_wf(s, s.cursor + 1);
        assert(s.next().0 == at);
        assert(s.next().1 == Some(
            Ok::<(TokenView, PosView), CompilationErrView>((operator_token(c), at.position)),
        ));
        lemma_operators_from(at);
        assert(s.tokens() =~= expected);
    } else {
        assert(run_end(s.input, s.cursor, CharClass::Blank) == s.cursor);
        assert(s.tokens() =~= expected);
    }
}

/// An input made of operators and brackets alone yields exactly one token
/// for each of its characters, in order: the `i`-th token carries the `i`-th
/// character and stands in line 1, column `i + 1`.
pub proof fn lemma_operators_lex_to_themselves(input: Seq<char>)
    requires
        input.len() <= usize::MAX,
        forall|i: int| 0 <= i < input.len() ==> is_operator(#[trigger] input[i]),
    ensures
        LexerView::start(input).tokens() == Seq::new(
            input.len(),
            |i: int|
                Ok::<(TokenView, PosView), CompilationErrView>(
                    (
                        operator_token(input[i]),
                        PosView { file: None, line: 1, column: (i + 1) as nat, raw: Some(i as nat) },
                    ),
                ),
        ),
{
    let s = LexerView::start(input);
    lemma_operators_from(s);
    assert forall|k: nat| k <= input.len() implies count_in(input, '\n', k) == 0 by {
        lemma_no_newline_among_operators(input, k);
    }
    assert(s.tokens() =~= Seq::new(
        input.len(),
        |i: int|
            Ok::<(TokenView, PosView), CompilationErrView>(
                (
                    operator_token(input[i]),
                    PosView { file: None, line: 1, column: (i + 1) as nat, raw: Some(i as nat) },
                ),
            ),
    ));
}

proof fn lemma_no_newline_among_operators(input: Seq<char>, k: nat)
    requires
        k <= input.len(),
        forall|i: int| 0 <= i < input.len() ==> is_operator(#[trigger] input[i]),
    ensures
        count_in(input, '\n', k) == 0,
    decreases k,
{
    if k > 0 {
        assert(is_operator(input[k - 1]));
        lemma_no_newline_among_operators(input, (k - 1) as nat);
    }
}

/// What a pull hands out, without the places: the token, or the kind of
/// the error.
pub open spec fn lexeme_token(item: Lexeme) -> Option<Result<TokenView, CompilationErrKind>> {
    match item {
        Some(Ok((token, _))) => Some(Ok(token)),
        Some(Err(e)) => Some(Err(e.kind)),
        None => None,
    }
}

/// All that the pulls from `s` on hand out, without the places.
pub open spec fn token_sequence(s: LexerView) -> Seq<Option<Result<TokenView, CompilationErrKind>>> {
    s.tokens().map_values(
        |item: Result<(TokenView, PosView), CompilationErrView>| lexeme_token(Some(item)),
    )
}

/// Whether `b` stands in the text of `a` with `pre` put before it, at the
/// same character.
pub open spec fn shifted(a: LexerView, b: LexerView, pre: Seq<char>) -> bool {
    &&& a.wf()
    &&& b.wf()
    &&& b.input == pre + a.input
    &&& b.cursor == a.cursor + pre.len()
}

/// A run ends at the same character whatever text stands before it.
pub proof fn lemma_run_end_shift(pre: Seq<char>, s: Seq<char>, from: nat, class: CharClass)
    requires
        from <= s.len(),
    ensures
        run_end(pre + s, pre.len() + from, class) == pre.len() + run_end(s, from, class),
    decreases s.len() - from,
{
    assert((pre + s).len() == pre.len() + s.len());
    if from < s.len() {
        assert((pre + s)[pre.len() + from as int] == s[from as int]);
        if class.holds(s[from as int]) {
            lemma_run_end_shift(pre, s, from + 1, class);
        }
    }
}

/// Blanks that have been read already and blanks that are still to be read
/// are skipped alike.
pub proof fn lemma_blanks_read_or_not(s: LexerView, k: nat)
    requires
        s.wf(),
        s.cursor <= k <= s.input.len(),
        forall|i: int| s.cursor <= i < k ==> is_blank(#[trigger] s.input[i]),
    ensures
        s.at(k).next() == s.next(),
    decreases k - s.cursor,
{
    if s.cursor < k {
        lemma_run_end(s.input, k, CharClass::Blank);
        let end = run_end(s.input, k, CharClass::Blank);
        assert forall|i: int| s.cursor <= i < end implies CharClass::Blank.holds(
            #[trigger] s.input[i],
        ) by {
            if i < k {
                assert(is_blank(s.input[i]));
            }
        }
        lemma_run_end_is(s.input, s.cursor, CharClass::Blank, end);
    }
}

/// With a text put before the input, an identifier read from the same
/// character on has the same text and ends at the same character.
proof fn lemma_scan_ident_shift(a: LexerView, b: LexerView, pre: Seq<char>, c: char)
    requires
        shifted(a, b, pre),
        a.current is Some,
        b.current is Some,
    ensures
        b.scan_ident(c).1 == a.scan_ident(c).1,
        shifted(a.scan_ident(c).0, b.scan_ident(c).0, pre),
{
    lemma_text_shift(pre, a.input, a.cursor, CharClass::IdentPart);
    lemma_at_wf(a, run_end(a.input, a.cursor, CharClass::IdentPart));
    lemma_at_wf(b, run_end(b.input, b.cursor, CharClass::IdentPart));
}

/// With a text put before the input, a numeric literal read from the same
/// character on has the same text and ends at the same character.
proof fn lemma_scan_num_shift(a: LexerView, b: LexerView, pre: Seq<char>, c: char)
    requires
        shifted(a, b, pre),
        a.current is Some,
        b.current is Some,
    ensures
        b.scan_num_text(c).1 == a.scan_num_text(c).1,
        shifted(a.scan_num_text(c).0, b.scan_num_text(c).0, pre),
{
    lemma_text_shift(pre, a.input, a.cursor, CharClass::NumChar);
    lemma_at_wf(a, run_end(a.input, a.cursor, CharClass::NumChar));
    lemma_at_wf(b, run_end(b.input, b.cursor, CharClass::NumChar));
}

/// With a text put before the input, a string literal read from the same
/// character on has the same text and ends at the same character.
proof fn lemma_scan_string_shift(a: LexerView, b: LexerView, pre: Seq<char>)
    requires
        shifted(a, b, pre),
        a.current is Some,
        b.current is Some,
    ensures
        b.scan_string().1 == a.scan_string().1,
        shifted(a.scan_string().0, b.scan_string().0, pre),
{
    lemma_text_shift(pre, a.input, a.cursor, CharClass::StringBody);
    let end = run_end(a.input, a.cursor, CharClass::StringBody);
    let n = pre.len();
    assert(b.input.len() == n + a.input.len());
    lemma_at_wf(a, end);
    lemma_at_wf(b, n + end);
    if end < a.input.len() {
        assert(b.input[n + end as int] == a.input[end as int]);
        lemma_at_wf(a, end + 1);
        lemma_at_wf(b, n + end + 1);
    }
}

/// With a text put before the input, the token that begins at the same
/// character is the same, or fails with the same kind of error, and ends
/// at the same character.
proof fn lemma_scan_shift(a: LexerView, b: LexerView, pre: Seq<char>, c: char)
    requires
        shifted(a, b, pre),
        a.current is Some,
        b.current is Some,
    ensures
        match (a.scan(c).1, b.scan(c).1) {
            (Ok(s), Ok(t)) => s == t,
            (Err(e), Err(f)) => e.kind == f.kind,
            _ => false,
        },
        shifted(a.scan(c).0, b.scan(c).0, pre),
{
    let n = pre.len();
    assert(b.input.len() == n + a.input.len());
    if a.cursor < a.input.len() {
        assert(b.input[n + a.cursor as int] == a.input[a.cursor as int]);
    }
    assert(b.peek() == a.peek());
    lemma_scan_ident_shift(a, b, pre, c);
    lemma_scan_num_shift(a, b, pre, c);
    lemma_scan_string_shift(a, b, pre);
}

/// With a text put before the input, a pull from the same character hands
/// out the same token, or an error of the same kind, and stops at the same
/// character.
pub proof fn lemma_next_shift(a: LexerView, b: LexerView, pre: Seq<char>)
    requires
        shifted(a, b, pre),
    ensures
        lexeme_token(b.next().1) == lexeme_token(a.next().1),
        shifted(a.next().0, b.next().0, pre),
{
    lemma_next_progress(a);
    lemma_next_progress(b);
    lemma_run_end(a.input, a.cursor, CharClass::Blank);
    lemma_run_end_shift(pre, a.input, a.cursor, CharClass::Blank);
    let first = run_end(a.input, a.cursor, CharClass::Blank);
    let n = pre.len();
    assert(b.input.len() == n + a.input.len());
    if first < a.input.len() {
        let c = a.input[first as int];
        assert(b.input[n + first as int] == c);
        lemma_at_wf(a, first + 1);
        lemma_at_wf(b, n + first + 1);
        lemma_scan_shift(a.at(first + 1), b.at(n + first + 1), pre, c);
    }
}

/// A run holds the same characters whatever text stands before it.
proof fn lemma_text_shift(pre: Seq<char>, s: Seq<char>, from: nat, class: CharClass)
    requires
        from <= s.len(),
    ensures
        from <= run_end(s, from, class) <= s.len(),
        run_end(pre + s, pre.len() + from, class) == pre.len() + run_end(s, from, class),
        (pre + s).subrange(
            (pre.len() + from) as int,
            (pre.len() + run_end(s, from, class)) as int,
        ) == s.subrange(from as int, run_end(s, from, class) as int),
{
    lemma_run_end(s, from, class);
    lemma_run_end_shift(pre, s, from, class);
    assert((pre + s).subrange(
        (pre.len() + from) as int,
        (pre.len() + run_end(s, from, class)) as int,
    ) =~= s.subrange(from as int, run_end(s, from, class) as int));
}

/// The tokens from a state on are the token of the next pull and then the
/// tokens from the state after it on.
pub proof fn lemma_token_sequence_unfold(s: LexerView)
    requires
        s.wf(),
    ensures
        token_sequence(s) == match s.next().1 {
            Some(item) => seq![lexeme_token(Some(item))] + token_sequence(s.next().0),
            None => Seq::empty(),
        },
{
    lemma_next_progress(s);
    match s.next().1 {
        Some(item) => {
            assert(s.next().1 == Some(item));
            assert(s.tokens() == seq![item] + s.next().0.tokens());
            assert(token_sequence(s) =~= seq![lexeme_token(Some(item))] + token_sequence(
                s.next().0,
            ));
        },
        None => {
            assert(s.tokens() == Seq::<Result<(TokenView, PosView), CompilationErrView>>::empty());
            assert(token_sequence(s) =~= Seq::empty());
        },
    }
}

/// With a text put before the input, the pulls from the same character on
/// hand out the same tokens and the same kinds of error.
pub proof fn lemma_tokens_shift(a: LexerView, b: LexerView, pre: Seq<char>)
    requires
        shifted(a, b, pre),
    ensures
        token_sequence(b) == token_sequence(a),
    decreases a.input.len() - a.cursor,
{
    lemma_next_shift(a, b, pre);
    lemma_next_progress(a);
    lemma_token_sequence_unfold(a);
    lemma_token_sequence_unfold(b);
    if a.next().1 is Some {
        lemma_tokens_shift(a.next().0, b.next().0, pre);
    }
}

/// Horizontal whitespace before a text changes no token: with blanks put
/// before it, the text yields the same tokens and the same kinds of error,
/// in the same order; only the places differ.
pub proof fn lemma_leading_blanks_are_skipped(blanks: Seq<char>, rest: Seq<char>)
    requires
        blanks.len() + rest.len() <= usize::MAX,
        forall|i: int| 0 <= i < blanks.len() ==> is_blank(#[trigger] blanks[i]),
    ensures
        token_sequence(LexerView::start(blanks + rest)) == token_sequence(LexerView::start(rest)),
{
    let a = LexerView::start(rest);
    let b = LexerView::start(blanks + rest);
    if blanks.len() == 0 {
        assert(blanks + rest =~= rest);
    } else {
        let moved = b.at(blanks.len());
        lemma_at_wf(b, blanks.len());
        assert forall|i: int| 0 <= i < blanks.len() implies is_blank(#[trigger] b.input[i]) by {
            assert(b.input[i] == blanks[i]);
        }
        lemma_blanks_read_or_not(b, blanks.len());
        assert(moved.next() == b.next());
        lemma_next_progress(b);
        lemma_next_progress(moved);
        assert(moved.tokens() == b.tokens());
        lemma_tokens_shift(a, moved, blanks);
    }
}

} // verus!
