use monkey_rs::lexer::keyword::Keyword;
use monkey_rs::lexer::punctuator::Punctuator;
use monkey_rs::lexer::token::TokenKind;
use monkey_rs::lexer::Lexer;

fn expect_tokens(lexer: &mut Lexer, expected: &[TokenKind]) {
    for expect in expected.iter() {
        assert_eq!(&lexer.next_token().kind(), &expect);
    }

    assert_eq!(*lexer.next_token().kind(), TokenKind::EOF);
}

#[test]
fn check_string() {
    let s = "\"bbb\"";
    let mut lexer = Lexer::new(s);

    let expected = [TokenKind::string_literal("bbb")];

    expect_tokens(&mut lexer, &expected);
}

#[test]
fn test_lexer() {
    let s = r"let five = 5;
let ten = 10;

let add = fn(x, y) {
  x + y;
};

let result = add(five, ten);
!-/*5;
5 < 10 > 5;

if (5 < 10) {
	return true;
} else {
	return false;
}

10 == 10;
10 != 9;

";
    let mut lexer = Lexer::new(s);
    let expected = [
        TokenKind::keyword(Keyword::Let),
        TokenKind::identifier("five"),
        TokenKind::punctuator(Punctuator::Assign),
        TokenKind::numeric_literal(5),
        TokenKind::punctuator(Punctuator::Semicolon),
        TokenKind::keyword(Keyword::Let),
        TokenKind::identifier("ten"),
        TokenKind::punctuator(Punctuator::Assign),
        TokenKind::numeric_literal(10),
        TokenKind::punctuator(Punctuator::Semicolon),
        TokenKind::keyword(Keyword::Let),
        TokenKind::identifier("add"),
        TokenKind::punctuator(Punctuator::Assign),
        TokenKind::keyword(Keyword::Function),
        TokenKind::punctuator(Punctuator::OpenParen),
        TokenKind::identifier("x"),
        TokenKind::punctuator(Punctuator::Comma),
        TokenKind::identifier("y"),
        TokenKind::punctuator(Punctuator::CloseParen),
        TokenKind::punctuator(Punctuator::OpenBlock),
        TokenKind::identifier("x"),
        TokenKind::punctuator(Punctuator::Add),
        TokenKind::identifier("y"),
        TokenKind::punctuator(Punctuator::Semicolon),
        TokenKind::punctuator(Punctuator::CloseBlock),
        TokenKind::punctuator(Punctuator::Semicolon),
        TokenKind::keyword(Keyword::Let),
        TokenKind::identifier("result"),
        TokenKind::punctuator(Punctuator::Assign),
        TokenKind::identifier("add"),
        TokenKind::punctuator(Punctuator::OpenParen),
        TokenKind::identifier("five"),
        TokenKind::punctuator(Punctuator::Comma),
        TokenKind::identifier("ten"),
        TokenKind::punctuator(Punctuator::CloseParen),
        TokenKind::punctuator(Punctuator::Semicolon),
        TokenKind::punctuator(Punctuator::Not),
        TokenKind::punctuator(Punctuator::Sub),
        TokenKind::punctuator(Punctuator::Div),
        TokenKind::punctuator(Punctuator::Mul),
        TokenKind::numeric_literal(5),
        TokenKind::punctuator(Punctuator::Semicolon),
        TokenKind::numeric_literal(5),
        TokenKind::punctuator(Punctuator::LessThan),
        TokenKind::numeric_literal(10),
        TokenKind::punctuator(Punctuator::GreaterThan),
        TokenKind::numeric_literal(5),
        TokenKind::punctuator(Punctuator::Semicolon),
        TokenKind::keyword(Keyword::If),
        TokenKind::punctuator(Punctuator::OpenParen),
        TokenKind::numeric_literal(5),
        TokenKind::punctuator(Punctuator::LessThan),
        TokenKind::numeric_literal(10),
        TokenKind::punctuator(Punctuator::CloseParen),
        TokenKind::punctuator(Punctuator::OpenBlock),
        TokenKind::keyword(Keyword::Return),
        TokenKind::boolean_literal(true),
        TokenKind::punctuator(Punctuator::Semicolon),
        TokenKind::punctuator(Punctuator::CloseBlock),
        TokenKind::keyword(Keyword::Else),
        TokenKind::punctuator(Punctuator::OpenBlock),
        TokenKind::keyword(Keyword::Return),
        TokenKind::boolean_literal(false),
        TokenKind::punctuator(Punctuator::Semicolon),
        TokenKind::punctuator(Punctuator::CloseBlock),
        TokenKind::numeric_literal(10),
        TokenKind::punctuator(Punctuator::Eq),
        TokenKind::numeric_literal(10),
        TokenKind::punctuator(Punctuator::Semicolon),
        TokenKind::numeric_literal(10),
        TokenKind::punctuator(Punctuator::NotEq),
        TokenKind::numeric_literal(9),
        TokenKind::punctuator(Punctuator::Semicolon),
    ];
    expect_tokens(&mut lexer, &expected);
}

#[test]
fn lexer_spans_cover_each_token() {
    let mut lexer = Lexer::new("let ten = 10;");
    let t = lexer.next_token();
    assert_eq!(t.span().start, 0);
    assert_eq!(t.span().end, 3);
    let t = lexer.next_token();
    assert_eq!(t.span().start, 4);
    assert_eq!(t.span().end, 7);
    let t = lexer.next_token();
    assert_eq!(t.span().start, 8);
    assert_eq!(t.span().end, 9);
    let t = lexer.next_token();
    assert_eq!(t.span().start, 10);
    assert_eq!(t.span().end, 12);
    let t = lexer.next_token();
    assert_eq!(t.span().start, 12);
    assert_eq!(t.span().end, 13);
}

#[test]
fn lexer_spans_count_bytes_not_characters() {
    let src = format!("{} = 1", '\u{00e9}');
    let mut lexer = Lexer::new(src.as_str());
    let t = lexer.next_token();
    assert_eq!(*t.kind(), TokenKind::ILLEGAL);
    assert_eq!(t.span().start, 0);
    assert_eq!(t.span().end, 2);
    let t = lexer.next_token();
    assert_eq!(*t.kind(), TokenKind::punctuator(Punctuator::Assign));
    assert_eq!(t.span().start, 3);
    assert_eq!(t.span().end, 4);
    let t = lexer.next_token();
    assert_eq!(*t.kind(), TokenKind::numeric_literal(1));
    assert_eq!(t.span().start, 5);
    assert_eq!(t.span().end, 6);
}

#[test]
fn lexer_is_idempotent_at_end_of_input() {
    let mut lexer = Lexer::new("5");
    assert_eq!(*lexer.next_token().kind(), TokenKind::numeric_literal(5));
    assert_eq!(*lexer.next_token().kind(), TokenKind::EOF);
    assert_eq!(*lexer.next_token().kind(), TokenKind::EOF);
    assert_eq!(*lexer.next_token().kind(), TokenKind::EOF);
}

#[test]
fn lexer_two_character_punctuators() {
    let mut lexer = Lexer::new("<= >= == != && ||");
    let expected = [
        TokenKind::punctuator(Punctuator::LessThanOrEq),
        TokenKind::punctuator(Punctuator::GreaterThanOrEq),
        TokenKind::punctuator(Punctuator::Eq),
        TokenKind::punctuator(Punctuator::NotEq),
        TokenKind::punctuator(Punctuator::BoolAnd),
        TokenKind::punctuator(Punctuator::BoolOr),
    ];
    expect_tokens(&mut lexer, &expected);
}

#[test]
fn lexer_flags_bad_input_and_continues() {
    let mut lexer = Lexer::new("1 ? 2");
    assert_eq!(*lexer.next_token().kind(), TokenKind::numeric_literal(1));
    assert_eq!(*lexer.next_token().kind(), TokenKind::ILLEGAL);
    assert_eq!(*lexer.next_token().kind(), TokenKind::numeric_literal(2));
    assert_eq!(*lexer.next_token().kind(), TokenKind::EOF);
}

#[test]
fn lexer_unterminated_string_is_illegal() {
    let mut lexer = Lexer::new("\"abc");
    assert_eq!(*lexer.next_token().kind(), TokenKind::ILLEGAL);
    assert_eq!(*lexer.next_token().kind(), TokenKind::EOF);
}

#[test]
fn lexer_integer_overflow_is_illegal() {
    let mut lexer = Lexer::new("9223372036854775807 9223372036854775808");
    assert_eq!(
        *lexer.next_token().kind(),
        TokenKind::numeric_literal(9223372036854775807)
    );
    assert_eq!(*lexer.next_token().kind(), TokenKind::ILLEGAL);
    assert_eq!(*lexer.next_token().kind(), TokenKind::EOF);
}

#[test]
fn lookup_identifier_distinguishes_keywords() {
    assert_eq!(
        monkey_rs::lexer::token::lookup_identifier("fn"),
        TokenKind::keyword(Keyword::Function)
    );
    assert_eq!(
        monkey_rs::lexer::token::lookup_identifier("lettuce"),
        TokenKind::identifier("lettuce")
    );
    assert!(monkey_rs::lexer::keyword::Keyword::from_str("return").is_ok());
    assert!(monkey_rs::lexer::keyword::Keyword::from_str("returns").is_err());
    assert_eq!(Keyword::Else.as_str(), "else");
}
