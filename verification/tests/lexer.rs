use unnamed::chars::CharClass;
use unnamed::Base;
use unnamed::Error;
use unnamed::ErrorKind;
use unnamed::Lexer;
use unnamed::Source;
use unnamed::Span;
use unnamed::Token;
use unnamed::TokenData;
use unnamed::TokenKind;

fn lex_all(text: &str) -> Vec<Result<Token<'_>, Error>> {
    let mut lexer = Lexer::new(Source::new(text, "test.u"));
    let mut out = Vec::new();
    loop {
        match lexer.next_token() {
            Ok(Some(token)) => out.push(Ok(token)),
            Ok(None) => break,
            Err(error) => {
                out.push(Err(error));
                break;
            }
        }
    }
    out
}

fn kinds(text: &str) -> Vec<TokenKind> {
    lex_all(text).into_iter().map(|t| t.unwrap().kind).collect()
}

fn single(text: &str) -> Token<'_> {
    let mut tokens = lex_all(text);
    assert_eq!(tokens.len(), 1);
    tokens.remove(0).unwrap()
}

fn first_error(text: &str) -> Error {
    let mut lexer = Lexer::new(Source::new(text, "test.u"));
    loop {
        match lexer.next_token() {
            Ok(Some(_)) => {}
            Ok(None) => panic!("no error in {:?}", text),
            Err(error) => return error,
        }
    }
}

#[test]
fn hexadecimal_literal() {
    let token = single("0xff");
    assert_eq!(token.kind, TokenKind::Int);
    assert_eq!(token.number(), 255);
    assert_eq!(token.span, Span::new(0, 4));
    assert_eq!(token.slice, "0xff");
}

#[test]
fn decimal_literal() {
    let token = single("120");
    assert_eq!(token.kind, TokenKind::Int);
    assert_eq!(token.number(), 120);
    assert_eq!(token.span, Span::new(0, 3));
}

#[test]
fn octal_literal() {
    let token = single("0o11");
    assert_eq!(token.number(), 9);
    assert_eq!(token.span, Span::new(0, 4));
}

#[test]
fn binary_literal() {
    let token = single("0b101");
    assert_eq!(token.number(), 5);
    assert_eq!(token.span, Span::new(0, 5));
}

#[test]
fn underscore_separates_digits() {
    let token = single("1_000");
    assert_eq!(token.number(), 1000);
    assert_eq!(token.span, Span::new(0, 5));
    assert_eq!(token.slice, "1_000");
}

#[test]
fn upper_case_radix_markers() {
    assert_eq!(single("0XFF").number(), 255);
    assert_eq!(single("0O17").number(), 15);
    assert_eq!(single("0B11").number(), 3);
    assert_eq!(single("0xAb_cD").number(), 0xabcd);
}

#[test]
fn bare_zero_is_zero() {
    let token = single("0");
    assert_eq!(token.kind, TokenKind::Int);
    assert_eq!(token.number(), 0);
    assert_eq!(token.span, Span::new(0, 1));
    assert_eq!(token.slice, "0");
}

#[test]
fn zero_is_read_alone() {
    let tokens = lex_all("0123 0;");
    let tokens: Vec<Token<'_>> = tokens.into_iter().map(|t| t.unwrap()).collect();
    assert_eq!(tokens.len(), 4);
    assert_eq!(tokens[0].number(), 0);
    assert_eq!(tokens[0].span, Span::new(0, 1));
    assert_eq!(tokens[1].number(), 123);
    assert_eq!(tokens[1].span, Span::new(1, 4));
    assert_eq!(tokens[2].number(), 0);
    assert_eq!(tokens[2].span, Span::new(5, 6));
    assert_eq!(tokens[3].kind, TokenKind::Semicolon);
}

#[test]
fn radix_marker_without_digits() {
    let token = single("0x");
    assert_eq!(token.number(), 0);
    assert_eq!(token.span, Span::new(0, 2));
    assert_eq!(token.slice, "0x");
}

#[test]
fn digits_stop_at_the_radix() {
    let tokens: Vec<Token<'_>> = lex_all("0b102").into_iter().map(|t| t.unwrap()).collect();
    assert_eq!(tokens.len(), 2);
    assert_eq!(tokens[0].number(), 2);
    assert_eq!(tokens[0].slice, "0b10");
    assert_eq!(tokens[1].number(), 2);
    assert_eq!(tokens[1].span, Span::new(4, 5));
}

#[test]
fn oversized_literal_wraps() {
    assert_eq!(single("18446744073709551615").number(), u64::MAX);
    assert_eq!(single("18446744073709551616").number(), 0);
    assert_eq!(single("18446744073709551617").number(), 1);
    assert_eq!(single("0x1_0000_0000_0000_00ff").number(), 255);
}

#[test]
fn parse_number_folds_digits() {
    assert_eq!(Lexer::parse_number("ff", Base::Hexadecimal), 255);
    assert_eq!(Lexer::parse_number("1_0", Base::Decimal), 10);
    assert_eq!(Lexer::parse_number("", Base::Decimal), 0);
    assert_eq!(Lexer::parse_number("___", Base::Octal), 0);
    assert_eq!(Lexer::parse_number("777", Base::Octal), 511);
    assert_eq!(Lexer::parse_number("1111", Base::Binary), 15);
}

#[test]
fn string_escapes_are_decoded() {
    let token = single("\"a\\nb\"");
    assert_eq!(token.kind, TokenKind::Str);
    assert_eq!(token.string(), "a\nb");
    assert_eq!(token.string().chars().count(), 3);
    assert_eq!(token.span, Span::new(0, 6));
    assert_eq!(token.slice, "\"a\\nb\"");
}

#[test]
fn every_escape() {
    let token = single("\"\\n\\t\\\\\\\"\"");
    assert_eq!(token.string(), "\n\t\\\"");
}

#[test]
fn string_keeps_whitespace_and_unicode() {
    let token = single("  \"a b\tç😀\"  ");
    assert_eq!(token.string(), "a b\tç😀");
    assert_eq!(token.slice, "\"a b\tç😀\"");
    assert_eq!(token.span, Span::new(2, 14));
}

#[test]
fn empty_string() {
    let token = single("\"\"");
    assert_eq!(token.string(), "");
    assert_eq!(token.span, Span::new(0, 2));
    assert!(matches!(token.data, Some(TokenData::String(_))));
}

#[test]
fn unclosed_string_points_at_its_opening() {
    let error = first_error("\"abc");
    assert_eq!(error.kind, ErrorKind::UnclosedStringLiteral);
    assert_eq!(error.span, Span::new(0, 1));
    let error = first_error("let x = \"abc def");
    assert_eq!(error.kind, ErrorKind::UnclosedStringLiteral);
    assert_eq!(error.span, Span::new(8, 9));
}

#[test]
fn invalid_escape_points_at_the_escaped_character() {
    let error = first_error("\"a\\qb\"");
    assert_eq!(error.kind, ErrorKind::InvalidEscapeSequence);
    assert_eq!(error.span, Span::new(3, 4));
    let error = first_error("\"\\é\"");
    assert_eq!(error.kind, ErrorKind::InvalidEscapeSequence);
    assert_eq!(error.span, Span::new(2, 4));
    let error = first_error("\"\\q");
    assert_eq!(error.kind, ErrorKind::InvalidEscapeSequence);
    assert_eq!(error.span, Span::new(2, 3));
}

#[test]
fn backslash_at_the_end_is_an_unclosed_string() {
    let error = first_error("\"abc\\");
    assert_eq!(error.kind, ErrorKind::UnclosedStringLiteral);
    assert_eq!(error.span, Span::new(0, 1));
    let error = first_error("x = \"\\");
    assert_eq!(error.kind, ErrorKind::UnclosedStringLiteral);
    assert_eq!(error.span, Span::new(4, 5));
    let mut lexer = Lexer::new(Source::new("\"abc\\", "test.u"));
    assert_eq!(lexer.string().unwrap_err(), Error::unclosed_string_literal(Span::new(0, 1)));
}

#[test]
fn invalid_token_covers_one_character() {
    let error = first_error("a @ b");
    assert_eq!(error.kind, ErrorKind::InvalidToken);
    assert_eq!(error.span, Span::new(2, 3));
    let error = first_error("€");
    assert_eq!(error.kind, ErrorKind::InvalidToken);
    assert_eq!(error.span, Span::new(0, 3));
    let error = first_error("!x");
    assert_eq!(error.kind, ErrorKind::InvalidToken);
    assert_eq!(error.span, Span::new(0, 1));
}

#[test]
fn lexing_goes_on_behind_an_invalid_token() {
    let mut lexer = Lexer::new(Source::new("# x", "test.u"));
    assert!(lexer.next_token().is_err());
    let token = lexer.next_token().unwrap().unwrap();
    assert_eq!(token.kind, TokenKind::Ident);
    assert_eq!(token.slice, "x");
    assert_eq!(token.span, Span::new(2, 3));
    assert!(lexer.next_token().unwrap().is_none());
}

#[test]
fn keyword_prefix_is_an_identifier() {
    let token = single("iffy");
    assert_eq!(token.kind, TokenKind::Ident);
    assert_eq!(token.slice, "iffy");
    assert_eq!(token.span, Span::new(0, 4));
    assert!(token.data.is_none());
}

#[test]
fn keywords() {
    assert_eq!(
        kinds("func trait impl while let if else return"),
        vec![
            TokenKind::FuncKw,
            TokenKind::TraitKw,
            TokenKind::ImplKw,
            TokenKind::WhileKw,
            TokenKind::LetKw,
            TokenKind::IfKw,
            TokenKind::ElseKw,
            TokenKind::ReturnKw,
        ]
    );
    assert_eq!(kinds("struct for If funcs"), vec![TokenKind::Ident; 4]);
}

#[test]
fn identifiers() {
    assert_eq!(single("_").kind, TokenKind::Ident);
    assert_eq!(single("_x1").slice, "_x1");
    assert_eq!(single("héllo").slice, "héllo");
    assert_eq!(single("héllo").span, Span::new(0, 6));
    assert_eq!(single("变量").kind, TokenKind::Ident);
    let tokens: Vec<Token<'_>> = lex_all("a1+b").into_iter().map(|t| t.unwrap()).collect();
    assert_eq!(tokens[0].slice, "a1");
    assert_eq!(tokens[1].kind, TokenKind::Add);
    assert_eq!(tokens[2].slice, "b");
}

#[test]
fn digits_come_before_identifiers() {
    let tokens: Vec<Token<'_>> = lex_all("1abc").into_iter().map(|t| t.unwrap()).collect();
    assert_eq!(tokens.len(), 2);
    assert_eq!(tokens[0].kind, TokenKind::Int);
    assert_eq!(tokens[0].number(), 1);
    assert_eq!(tokens[1].kind, TokenKind::Ident);
    assert_eq!(tokens[1].slice, "abc");
}

#[test]
fn longest_operator_wins() {
    let token = single("<=");
    assert_eq!(token.kind, TokenKind::LtEq);
    assert_eq!(token.span, Span::new(0, 2));
    let token = single("<<");
    assert_eq!(token.kind, TokenKind::BitShl);
    assert_eq!(token.span, Span::new(0, 2));
    assert_eq!(kinds("< ="), vec![TokenKind::Lt, TokenKind::Asgmt]);
    assert_eq!(kinds("<"), vec![TokenKind::Lt]);
}

#[test]
fn operator_table() {
    assert_eq!(
        kinds("+ - * / == = != < <= << > >= >> && || | & ^"),
        vec![
            TokenKind::Add,
            TokenKind::Sub,
            TokenKind::Mul,
            TokenKind::Div,
            TokenKind::Eq,
            TokenKind::Asgmt,
            TokenKind::Neq,
            TokenKind::Lt,
            TokenKind::LtEq,
            TokenKind::BitShl,
            TokenKind::Gt,
            TokenKind::GtEq,
            TokenKind::BitShr,
            TokenKind::And,
            TokenKind::Or,
            TokenKind::BitOr,
            TokenKind::BitAnd,
            TokenKind::BitXor,
        ]
    );
    assert_eq!(
        kinds(", ( ) { } [ ] ; : ::"),
        vec![
            TokenKind::Comma,
            TokenKind::LeftParen,
            TokenKind::RightParen,
            TokenKind::LeftBrace,
            TokenKind::RightBrace,
            TokenKind::LeftSquare,
            TokenKind::RightSquare,
            TokenKind::Semicolon,
            TokenKind::Colon,
            TokenKind::DoubleColon,
        ]
    );
    assert_eq!(kinds("==="), vec![TokenKind::Eq, TokenKind::Asgmt]);
    assert_eq!(kinds(":::"), vec![TokenKind::DoubleColon, TokenKind::Colon]);
    assert_eq!(kinds(">>="), vec![TokenKind::BitShr, TokenKind::Asgmt]);
}

#[test]
fn empty_input_has_no_token() {
    let mut lexer = Lexer::new(Source::new("", "test.u"));
    assert!(lexer.next_token().unwrap().is_none());
    assert!(lexer.next_token().unwrap().is_none());
    let mut lexer = Lexer::new(Source::new(" \t\n\u{a0}\u{3000} ", "test.u"));
    assert!(lexer.next_token().unwrap().is_none());
}

#[test]
fn slices_are_the_text_under_the_span() {
    let text = "func foo[N](lhs: N, rhs: N): N {\n\tif condition() { return bar(lhs, 0x1f); }\n  \"s\\t\" }";
    let tokens = lex_all(text);
    assert_eq!(tokens.len(), 33);
    for token in tokens {
        let token = token.unwrap();
        assert_eq!(&text[token.span.start..token.span.end], token.slice);
    }
}

#[test]
fn whitespace_is_outside_every_token() {
    let samples = [
        "a b",
        "  a\tb\n",
        "\n\n1 +\u{a0}2",
        "\u{2003}x\u{3000}<=\r\ny ",
        "if(x){y}",
        " \t func\nmain ( ) { let x = 0b1 ; } ",
    ];
    for text in samples {
        let mut end = 0;
        for token in lex_all(text) {
            let token = token.unwrap();
            assert!(text[end..token.span.start].chars().all(|c| c.is_whitespace()));
            assert!(token.span.start < token.span.end);
            assert!(!token.slice.chars().any(|c| c.is_whitespace()));
            end = token.span.end;
        }
        assert!(text[end..].chars().all(|c| c.is_whitespace()));
    }
}

#[test]
fn scanners_fail_at_the_end_of_input() {
    let source = Source::new("", "test.u");
    let eof = Error::unexpected_eof();
    assert_eq!(Lexer::new(source).number().unwrap_err(), eof);
    assert_eq!(Lexer::new(source).string().unwrap_err(), eof);
    assert_eq!(Lexer::new(source).ident().unwrap_err(), eof);
    assert_eq!(Lexer::new(source).operator().unwrap_err(), eof);
    assert_eq!(Lexer::new(source).token().unwrap_err(), eof);
    assert_eq!(Lexer::new(source).is_number_start().unwrap_err(), eof);
    assert_eq!(Lexer::new(source).is_string_start().unwrap_err(), eof);
    assert_eq!(Lexer::new(source).is_ident_start().unwrap_err(), eof);
    assert_eq!(Lexer::new(source).is_ident_continue().unwrap_err(), eof);
    assert_eq!(Lexer::new(source).is_number(Base::Decimal).unwrap_err(), eof);
    assert!(Lexer::new(source).skip_whitespaces().is_ok());
}

#[test]
fn character_tests() {
    let mut lexer = Lexer::new(Source::new("7", "test.u"));
    assert_eq!(lexer.is_number_start(), Ok(true));
    assert_eq!(lexer.is_number(Base::Octal), Ok(true));
    assert_eq!(lexer.is_number(Base::Binary), Ok(false));
    assert_eq!(lexer.is_string_start(), Ok(false));
    assert_eq!(lexer.is_ident_start(), Ok(false));
    assert_eq!(lexer.is_ident_continue(), Ok(true));
    let mut lexer = Lexer::new(Source::new("_", "test.u"));
    assert_eq!(lexer.is_number_start(), Ok(false));
    assert_eq!(lexer.is_number(Base::Decimal), Ok(true));
    assert_eq!(lexer.is_ident_start(), Ok(true));
    assert_eq!(lexer.is_ident_continue(), Ok(true));
    let mut lexer = Lexer::new(Source::new("\"", "test.u"));
    assert_eq!(lexer.is_string_start(), Ok(true));
    assert_eq!(lexer.is_ident_start(), Ok(false));
    let mut lexer = Lexer::new(Source::new("é", "test.u"));
    assert_eq!(lexer.is_ident_start(), Ok(true));
    assert_eq!(lexer.is_ident_continue(), Ok(true));
    assert_eq!(lexer.is_number(Base::Hexadecimal), Ok(false));
    let mut lexer = Lexer::new(Source::new("٣", "test.u"));
    assert_eq!(lexer.is_number_start(), Ok(false));
    assert_eq!(lexer.is_ident_start(), Ok(false));
    assert_eq!(lexer.is_ident_continue(), Ok(true));
}

#[test]
fn skip_whitespaces_stops_at_a_token() {
    let mut lexer = Lexer::new(Source::new(" \n\tx ", "test.u"));
    assert!(lexer.skip_whitespaces().is_ok());
    let token = lexer.token().unwrap();
    assert_eq!(token.span, Span::new(3, 4));
    assert_eq!(token.slice, "x");
}

#[test]
fn all_tokens_at_once() {
    let text = "let x = 0x10 + y;";
    let mut lexer = Lexer::new(Source::new(text, "test.u"));
    let tokens = lexer.tokens();
    let expected = lex_all(text);
    assert_eq!(tokens.len(), 7);
    assert_eq!(tokens.len(), expected.len());
    for (got, want) in tokens.iter().zip(expected.iter()) {
        let got = got.as_ref().unwrap();
        let want = want.as_ref().unwrap();
        assert_eq!(got.kind, want.kind);
        assert_eq!(got.span, want.span);
        assert_eq!(got.slice, want.slice);
    }
    assert_eq!(tokens[3].as_ref().unwrap().number(), 16);
    assert!(lexer.tokens().is_empty());
    assert!(lexer.next_token().unwrap().is_none());
}

#[test]
fn reading_goes_on_behind_errors() {
    let mut lexer = Lexer::new(Source::new("a # \"x\\qy\" b \"open", "test.u"));
    let items = lexer.tokens();
    assert_eq!(items.len(), 6);
    assert_eq!(items[0].as_ref().unwrap().slice, "a");
    assert_eq!(items[1].as_ref().err(), Some(&Error::invalid_token(Span::new(2, 3))));
    assert_eq!(items[2].as_ref().err(), Some(&Error::invalid_escape_sequence(Span::new(7, 8))));
    assert_eq!(items[3].as_ref().unwrap().slice, "y");
    assert_eq!(items[3].as_ref().unwrap().span, Span::new(8, 9));
    assert_eq!(items[4].as_ref().unwrap().string(), " b ");
    assert_eq!(items[4].as_ref().unwrap().span, Span::new(9, 14));
    assert_eq!(items[5].as_ref().unwrap().slice, "open");
    let items = Lexer::new(Source::new("x \"open y", "test.u")).tokens();
    assert_eq!(items.len(), 2);
    assert_eq!(items[1].as_ref().err(), Some(&Error::unclosed_string_literal(Span::new(2, 3))));
    assert!(Lexer::new(Source::new("   ", "test.u")).tokens().is_empty());
}

#[test]
fn character_classes_below_u0080() {
    for code in 0..0x80u32 {
        let c = char::from_u32(code).unwrap();
        let expected = c == ' ' || ('\t'..='\r').contains(&c);
        assert_eq!(CharClass::Whitespace.contains(c), expected);
        let letter = c.is_ascii_alphabetic();
        assert_eq!(CharClass::IdentContinue.contains(c), letter || c.is_ascii_digit() || c == '_');
        assert_eq!(unnamed::chars::is_ident_start(c), letter || c == '_');
        let text = format!("{}x", c);
        let mut lexer = Lexer::new(Source::new(&text, "test.u"));
        assert!(lexer.skip_whitespaces().is_ok());
        let token = lexer.next_token();
        if expected {
            assert_eq!(token.unwrap().unwrap().span, Span::new(1, 2));
        }
    }
    for c in ['\u{85}', '\u{a0}', '\u{1680}', '\u{2000}', '\u{200a}', '\u{2028}', '\u{3000}'] {
        assert!(CharClass::Whitespace.contains(c));
    }
    for c in ['\u{200b}', '\u{180e}', 'é', '越'] {
        assert!(!CharClass::Whitespace.contains(c));
    }
}
