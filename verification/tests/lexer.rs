use renrs_lang::err::{CompilationErr, CompilationErrKind};
use renrs_lang::lexer::Lexer;
use renrs_lang::pos::Pos;
use renrs_lang::token::Token;

fn token_of(item: Option<Result<(Token, Pos), CompilationErr>>) -> Token {
    item.unwrap().unwrap().0
}

fn place_of(item: Option<Result<(Token, Pos), CompilationErr>>) -> (usize, usize, Option<usize>) {
    let pos = item.unwrap().unwrap().1;
    (pos.line(), pos.column(), pos.raw())
}

#[test]
fn end_of_file() {
    let mut a = Lexer::new("");
    assert_eq!(a.next(), None);
}

#[test]
fn all_single_tokens() -> Result<(), CompilationErr> {
    let src = vec!["=", "+", "-", "{", "}", "(", ")"];
    let toks = vec![
        Token::Assign('='),
        Token::Plus('+'),
        Token::Minus('-'),
        Token::LCurly('{'),
        Token::RCurly('}'),
        Token::LParen('('),
        Token::RParen(')'),
    ];
    for (i, t) in src.into_iter().enumerate() {
        let mut lex = Lexer::new(t);
        let tok = lex.next().unwrap()?;
        assert_eq!(tok.0, toks[i]);
    }
    Ok(())
}

#[test]
fn ident() -> Result<(), CompilationErr> {
    let mut lex = Lexer::new("_ident");
    assert_eq!(
        lex.next().unwrap()?.0,
        Token::Ident(vec!['_', 'i', 'd', 'e', 'n', 't'])
    );
    let mut lex = Lexer::new("hello");
    assert_eq!(
        lex.next().unwrap()?.0,
        Token::Ident(vec!['h', 'e', 'l', 'l', 'o'])
    );
    let mut lex = Lexer::new("   \nhello");
    lex.next();
    assert_eq!(
        lex.next().unwrap()?.0,
        Token::Ident(vec!['h', 'e', 'l', 'l', 'o'])
    );
    let mut lex = Lexer::new("     h1");
    assert_eq!(lex.next().unwrap()?.0, Token::Ident(vec!['h', '1']));
    Ok(())
}

#[test]
fn num() -> Result<(), CompilationErr> {
    let mut lex = Lexer::new("1");
    assert_eq!(lex.next().unwrap()?.0, Token::Num(vec!['1']));
    let mut lex = Lexer::new(".1");
    assert_eq!(lex.next().unwrap()?.0, Token::Num(vec!['.', '1']));
    let mut lex = Lexer::new("1.1");
    assert_eq!(lex.next().unwrap()?.0, Token::Num(vec!['1', '.', '1']));
    Ok(())
}

#[test]
fn token_chain() {
    let mut lex = Lexer::new("a b c d");
    lex.next();
    lex.next();
    lex.next();
    lex.next();
    assert_eq!(lex.next(), None);
}

#[test]
fn dot_for_access() {
    let mut lex = Lexer::new("a.z");
    lex.next();
    assert_eq!(lex.next().unwrap().unwrap().0, Token::Dot);
}

#[test]
fn reading_string() {
    let mut lex = Lexer::new(r#""Hello, world!"#);
    assert_eq!(
        Token::String(vec![
            'H', 'e', 'l', 'l', 'o', ',', ' ', 'w', 'o', 'r', 'l', 'd', '!'
        ]),
        lex.next().unwrap().unwrap().0
    );
}

#[test]
fn read_till_new_line_or_another_quoteation_mark() {
    let mut lex = Lexer::new("\"a\n\"b");
    assert_eq!(Token::String(vec!['a']), lex.next().unwrap().unwrap().0);
    assert_eq!(Token::EndOfLine, lex.next().unwrap().unwrap().0);
    assert_eq!(Token::String(vec!['b']), lex.next().unwrap().unwrap().0);

    let mut lex = Lexer::new("\"a\" b");
    assert_eq!(Token::String(vec!['a']), lex.next().unwrap().unwrap().0);
    assert_eq!(Token::Ident(vec!['b']), lex.next().unwrap().unwrap().0);
}

#[test]
fn empty_input_stays_exhausted() {
    let mut lex = Lexer::new("");
    for _ in 0..5 {
        assert_eq!(lex.next(), None);
    }
}

#[test]
fn blank_input_is_exhausted_at_once() {
    let mut lex = Lexer::new(" \t  ");
    assert_eq!(lex.next(), None);
    assert_eq!(lex.next(), None);
}

#[test]
fn token_chain_yields_four_identifiers() {
    let mut lex = Lexer::new("a b c d");
    assert_eq!(token_of(lex.next()), Token::Ident(vec!['a']));
    assert_eq!(token_of(lex.next()), Token::Ident(vec!['b']));
    assert_eq!(token_of(lex.next()), Token::Ident(vec!['c']));
    assert_eq!(token_of(lex.next()), Token::Ident(vec!['d']));
    assert_eq!(lex.next(), None);
    assert_eq!(lex.next(), None);
}

#[test]
fn operators_in_a_row() {
    let mut lex = Lexer::new("=+-{}()");
    let expected = vec![
        Token::Assign('='),
        Token::Plus('+'),
        Token::Minus('-'),
        Token::LCurly('{'),
        Token::RCurly('}'),
        Token::LParen('('),
        Token::RParen(')'),
    ];
    for (i, tok) in expected.into_iter().enumerate() {
        let (got, pos) = lex.next().unwrap().unwrap();
        assert_eq!(got, tok);
        assert_eq!((pos.line(), pos.column(), pos.raw()), (1, i + 1, Some(i)));
    }
    assert_eq!(lex.next(), None);
}

#[test]
fn dot_then_identifier() {
    let mut lex = Lexer::new("a.z");
    assert_eq!(token_of(lex.next()), Token::Ident(vec!['a']));
    assert_eq!(token_of(lex.next()), Token::Dot);
    assert_eq!(token_of(lex.next()), Token::Ident(vec!['z']));
    assert_eq!(lex.next(), None);
}

#[test]
fn dot_before_identifier_or_digit() {
    let mut lex = Lexer::new(".foo");
    assert_eq!(token_of(lex.next()), Token::Dot);
    assert_eq!(token_of(lex.next()), Token::Ident(vec!['f', 'o', 'o']));
    let mut lex = Lexer::new(".5");
    assert_eq!(token_of(lex.next()), Token::Num(vec!['.', '5']));
    assert_eq!(lex.next(), None);
    let mut lex = Lexer::new("._x");
    assert_eq!(token_of(lex.next()), Token::Dot);
    assert_eq!(token_of(lex.next()), Token::Ident(vec!['_', 'x']));
}

#[test]
fn lone_dot_is_a_number() {
    let mut lex = Lexer::new(".");
    assert_eq!(token_of(lex.next()), Token::Num(vec!['.']));
    assert_eq!(lex.next(), None);
    let mut lex = Lexer::new("1.");
    assert_eq!(token_of(lex.next()), Token::Num(vec!['1', '.']));
}

#[test]
fn two_decimal_points_are_an_error() {
    let mut lex = Lexer::new("0000.10.0");
    let err = lex.next().unwrap().unwrap_err();
    assert_eq!(err.kind, CompilationErrKind::InvalidNumber);
    assert!(err.kind.is_invalid_number());
    assert_eq!(err.message, "Invalid number 0000.10.0 at: :1:9");
    assert_eq!(lex.next(), None);

    let mut lex = Lexer::new("..");
    let err = lex.next().unwrap().unwrap_err();
    assert_eq!(
        err,
        CompilationErr {
            kind: CompilationErrKind::InvalidNumber,
            message: String::from("Invalid number .. at: :1:2"),
        }
    );
}

#[test]
fn error_message_counts_lines_and_columns_in_decimal() {
    let mut lex = Lexer::new("a\nb\n          1.2.3;");
    assert_eq!(token_of(lex.next()), Token::Ident(vec!['a']));
    assert_eq!(token_of(lex.next()), Token::EndOfLine);
    assert_eq!(token_of(lex.next()), Token::Ident(vec!['b']));
    assert_eq!(token_of(lex.next()), Token::EndOfLine);
    let err = lex.next().unwrap().unwrap_err();
    assert_eq!(err.kind, CompilationErrKind::InvalidNumber);
    assert_eq!(err.message, "Invalid number 1.2.3 at: :3:17");
    assert_eq!(token_of(lex.next()), Token::EndOfLine);
    assert_eq!(lex.next(), None);
}

#[test]
fn scanning_resumes_after_an_error() {
    let mut lex = Lexer::new("1.2.3 x = 4");
    assert!(lex.next().unwrap().is_err());
    assert_eq!(token_of(lex.next()), Token::Ident(vec!['x']));
    assert_eq!(token_of(lex.next()), Token::Assign('='));
    assert_eq!(token_of(lex.next()), Token::Num(vec!['4']));
    assert_eq!(lex.next(), None);
}

#[test]
fn unknown_characters_are_invalid_tokens() {
    let mut lex = Lexer::new("@ a # ");
    assert_eq!(token_of(lex.next()), Token::Invalid('@'));
    assert_eq!(token_of(lex.next()), Token::Ident(vec!['a']));
    assert_eq!(token_of(lex.next()), Token::Invalid('#'));
    assert_eq!(lex.next(), None);
}

#[test]
fn separators_end_a_statement() {
    let mut lex = Lexer::new("a;b\n");
    assert_eq!(token_of(lex.next()), Token::Ident(vec!['a']));
    assert_eq!(token_of(lex.next()), Token::EndOfLine);
    assert_eq!(token_of(lex.next()), Token::Ident(vec!['b']));
    assert_eq!(token_of(lex.next()), Token::EndOfLine);
    assert_eq!(lex.next(), None);
}

#[test]
fn leading_newline_yields_end_of_line_first() {
    let mut lex = Lexer::new("   \nhello");
    assert_eq!(token_of(lex.next()), Token::EndOfLine);
    assert_eq!(token_of(lex.next()), Token::Ident(vec!['h', 'e', 'l', 'l', 'o']));
    assert_eq!(lex.next(), None);
}

#[test]
fn leading_blanks_change_only_the_position() {
    let mut plain = Lexer::new("h1 =");
    let mut padded = Lexer::new(" \t  h1 =");
    let (tok, pos) = plain.next().unwrap().unwrap();
    assert_eq!(tok, Token::Ident(vec!['h', '1']));
    assert_eq!((pos.line(), pos.column(), pos.raw()), (1, 1, Some(0)));
    let (tok, pos) = padded.next().unwrap().unwrap();
    assert_eq!(tok, Token::Ident(vec!['h', '1']));
    assert_eq!((pos.line(), pos.column(), pos.raw()), (1, 5, Some(4)));
    assert_eq!(token_of(plain.next()), Token::Assign('='));
    assert_eq!(token_of(padded.next()), Token::Assign('='));
}

#[test]
fn string_ends_at_quotes_and_separators() {
    let mut lex = Lexer::new("\"ab\"cd");
    assert_eq!(token_of(lex.next()), Token::String(vec!['a', 'b']));
    assert_eq!(token_of(lex.next()), Token::Ident(vec!['c', 'd']));
    assert_eq!(lex.next(), None);

    let mut lex = Lexer::new("\"ab;cd");
    assert_eq!(token_of(lex.next()), Token::String(vec!['a', 'b']));
    assert_eq!(token_of(lex.next()), Token::EndOfLine);
    assert_eq!(token_of(lex.next()), Token::Ident(vec!['c', 'd']));

    let mut lex = Lexer::new("'ab'");
    assert_eq!(token_of(lex.next()), Token::String(vec!['a', 'b']));
    assert_eq!(token_of(lex.next()), Token::String(vec![]));
    assert_eq!(lex.next(), None);

    let mut lex = Lexer::new("\"ab`cd");
    assert_eq!(token_of(lex.next()), Token::String(vec!['a', 'b']));
    assert_eq!(token_of(lex.next()), Token::String(vec!['c', 'd']));
    assert_eq!(lex.next(), None);

    let mut lex = Lexer::new("`a b = 1`");
    assert_eq!(
        token_of(lex.next()),
        Token::String(vec!['a', ' ', 'b', ' ', '=', ' ', '1'])
    );
    assert_eq!(token_of(lex.next()), Token::String(vec![]));
    assert_eq!(lex.next(), None);
}

#[test]
fn empty_string_literal() {
    let mut lex = Lexer::new("\"\" x");
    assert_eq!(token_of(lex.next()), Token::String(vec![]));
    assert_eq!(token_of(lex.next()), Token::Ident(vec!['x']));
    assert_eq!(lex.next(), None);
}

#[test]
fn positions_follow_lines_and_columns() {
    let mut lex = Lexer::new("a\n b\n\nc");
    assert_eq!(place_of(lex.next()), (1, 1, Some(0)));
    assert_eq!(place_of(lex.next()), (1, 2, Some(1)));
    assert_eq!(place_of(lex.next()), (2, 3, Some(3)));
    assert_eq!(place_of(lex.next()), (2, 4, Some(4)));
    assert_eq!(place_of(lex.next()), (3, 4, Some(5)));
    assert_eq!(place_of(lex.next()), (4, 4, Some(6)));
    assert_eq!(lex.next(), None);
}

#[test]
fn token_position_is_that_of_its_first_character() {
    let mut lex = Lexer::new("  hello  \"x y\" 12.5");
    assert_eq!(place_of(lex.next()), (1, 3, Some(2)));
    assert_eq!(place_of(lex.next()), (1, 10, Some(9)));
    assert_eq!(place_of(lex.next()), (1, 16, Some(15)));
    assert_eq!(lex.next(), None);
}

#[test]
fn unicode_letters_and_digits() {
    let mut lex = Lexer::new("\u{e9}t\u{e9}2 \u{663}\u{661}");
    assert_eq!(
        token_of(lex.next()),
        Token::Ident(vec!['\u{e9}', 't', '\u{e9}', '2'])
    );
    assert_eq!(token_of(lex.next()), Token::Num(vec!['\u{663}', '\u{661}']));
    assert_eq!(lex.next(), None);
}

#[test]
fn identifier_stops_before_other_characters() {
    let mut lex = Lexer::new("ab1_c-d");
    assert_eq!(
        token_of(lex.next()),
        Token::Ident(vec!['a', 'b', '1', '_', 'c'])
    );
    assert_eq!(token_of(lex.next()), Token::Minus('-'));
    assert_eq!(token_of(lex.next()), Token::Ident(vec!['d']));
}

#[test]
fn number_stops_before_other_characters() {
    let mut lex = Lexer::new("12a 3.4+5");
    assert_eq!(token_of(lex.next()), Token::Num(vec!['1', '2']));
    assert_eq!(token_of(lex.next()), Token::Ident(vec!['a']));
    assert_eq!(token_of(lex.next()), Token::Num(vec!['3', '.', '4']));
    assert_eq!(token_of(lex.next()), Token::Plus('+'));
    assert_eq!(token_of(lex.next()), Token::Num(vec!['5']));
    assert_eq!(lex.next(), None);
}

#[test]
fn small_script() {
    let mut lex = Lexer::new("c = Character \"Crab\"\nc_idle = Animation {\n\tc show left\n}");
    let expected = vec![
        Token::Ident(vec!['c']),
        Token::Assign('='),
        Token::Ident("Character".chars().collect()),
        Token::String("Crab".chars().collect()),
        Token::EndOfLine,
        Token::Ident("c_idle".chars().collect()),
        Token::Assign('='),
        Token::Ident("Animation".chars().collect()),
        Token::LCurly('{'),
        Token::EndOfLine,
        Token::Ident(vec!['c']),
        Token::Ident("show".chars().collect()),
        Token::Ident("left".chars().collect()),
        Token::EndOfLine,
        Token::RCurly('}'),
    ];
    for tok in expected {
        assert_eq!(token_of(lex.next()), tok);
    }
    assert_eq!(lex.next(), None);
}
