use basic_lexer::tokenize_line;
use basic_lexer::LineNumber;
use basic_lexer::Token;
use basic_lexer::TokenAndPos;
use basic_lexer::TokenizeError;

#[test]
fn tokenize_no_line_number() {
    let line_of_code = tokenize_line("REM Invalid Line");
    assert!(line_of_code.is_err());
}

#[test]
fn tokenize_bad_line_number() {
    let line_of_code = tokenize_line("10B REM Invalid Line");
    assert!(line_of_code.is_err());
}

#[test]
fn tokenize_line_with_goto() {
    let line_of_code = tokenize_line("10 GOTO 100").unwrap();
    assert_eq!(LineNumber(10), line_of_code.line_number);
    let tokens: Vec<TokenAndPos> =
        vec![TokenAndPos(3, Token::Goto), TokenAndPos(8, Token::Number(100))];
    assert_eq!(tokens, line_of_code.tokens)
}

#[test]
fn tokenize_line_with_string() {
    let line_of_code = tokenize_line("10 PRINT \"FOO BAR BAZ\"").unwrap();
    assert_eq!(LineNumber(10), line_of_code.line_number);
    let tokens: Vec<TokenAndPos> = vec![
        TokenAndPos(3, Token::Print),
        TokenAndPos(9, Token::BString("FOO BAR BAZ".to_string())),
    ];
    assert_eq!(tokens, line_of_code.tokens)
}

#[test]
fn tokenize_line_with_identifier() {
    let line_of_code = tokenize_line("10 INPUT A").unwrap();
    assert_eq!(LineNumber(10), line_of_code.line_number);
    let tokens: Vec<TokenAndPos> =
        vec![TokenAndPos(3, Token::Input), TokenAndPos(9, Token::Variable("A".to_string()))];
    assert_eq!(tokens, line_of_code.tokens)
}

#[test]
fn tokenize_line_with_bad_identifier() {
    let line_of_code = tokenize_line("10 INPUT `A");
    assert!(line_of_code.is_err());
}

#[test]
fn tokenize_line_with_comment() {
    let line_of_code = tokenize_line("5  REM THIS IS A COMMENT 123").unwrap();
    assert_eq!(LineNumber(5), line_of_code.line_number);
    let tokens: Vec<TokenAndPos> = vec![
        TokenAndPos(3, Token::Rem),
        TokenAndPos(7, Token::Comment("THIS IS A COMMENT 123".to_string())),
    ];
    assert_eq!(tokens, line_of_code.tokens)
}

#[test]
fn non_digit_start_reports_missing_line_number() {
    assert_eq!(
        tokenize_line("PRINT 1"),
        Err(TokenizeError::MissingOrInvalidLineNumber)
    );
    assert_eq!(tokenize_line(""), Err(TokenizeError::MissingOrInvalidLineNumber));
    assert_eq!(tokenize_line(" 10 GOTO 5"), Err(TokenizeError::MissingOrInvalidLineNumber));
}

#[test]
fn line_number_overflow_reports_missing_line_number() {
    assert_eq!(
        tokenize_line("4294967296 PRINT A"),
        Err(TokenizeError::MissingOrInvalidLineNumber)
    );
    let ok = tokenize_line("4294967295 PRINT A").unwrap();
    assert_eq!(LineNumber(4294967295), ok.line_number);
}

#[test]
fn bad_identifier_reports_text_and_offset() {
    assert_eq!(
        tokenize_line("10 INPUT `A"),
        Err(TokenizeError::UnrecognizedToken { text: "`A".to_string(), pos: 9 })
    );
}

#[test]
fn retokenizing_gives_equal_record() {
    let first = tokenize_line("10 LET A = 5 - 3").unwrap();
    let second = tokenize_line("10 LET A = 5 - 3").unwrap();
    assert_eq!(first, second);
    let e1 = tokenize_line("10 INPUT `A");
    let e2 = tokenize_line("10 INPUT `A");
    assert_eq!(e1, e2);
}

#[test]
fn minus_after_value_is_binary() {
    let line_of_code = tokenize_line("10 LET A = 5 - 3").unwrap();
    let tokens: Vec<TokenAndPos> = vec![
        TokenAndPos(3, Token::Let),
        TokenAndPos(7, Token::Variable("A".to_string())),
        TokenAndPos(9, Token::Equals),
        TokenAndPos(11, Token::Number(5)),
        TokenAndPos(13, Token::Minus),
        TokenAndPos(15, Token::Number(3)),
    ];
    assert_eq!(tokens, line_of_code.tokens)
}

#[test]
fn minus_after_operator_is_unary() {
    let line_of_code = tokenize_line("10 LET A = -3").unwrap();
    let tokens: Vec<TokenAndPos> = vec![
        TokenAndPos(3, Token::Let),
        TokenAndPos(7, Token::Variable("A".to_string())),
        TokenAndPos(9, Token::Equals),
        TokenAndPos(11, Token::UMinus),
        TokenAndPos(12, Token::Number(3)),
    ];
    assert_eq!(tokens, line_of_code.tokens)
}

#[test]
fn leading_minus_is_unary() {
    let line_of_code = tokenize_line("10 PRINT -1").unwrap();
    let tokens: Vec<TokenAndPos> = vec![
        TokenAndPos(3, Token::Print),
        TokenAndPos(9, Token::UMinus),
        TokenAndPos(10, Token::Number(1)),
    ];
    assert_eq!(tokens, line_of_code.tokens)
}

#[test]
fn unterminated_string_consumes_to_end_of_line() {
    let line_of_code = tokenize_line("10 PRINT \"FOO BAR").unwrap();
    let tokens: Vec<TokenAndPos> = vec![
        TokenAndPos(3, Token::Print),
        TokenAndPos(9, Token::BString("FOO BAR".to_string())),
    ];
    assert_eq!(tokens, line_of_code.tokens)
}

#[test]
fn close_paren_ends_a_run() {
    let line_of_code = tokenize_line("10 PRINT (A)").unwrap();
    let tokens: Vec<TokenAndPos> = vec![
        TokenAndPos(3, Token::Print),
        TokenAndPos(9, Token::LParen),
        TokenAndPos(10, Token::Variable("A".to_string())),
        TokenAndPos(11, Token::RParen),
    ];
    assert_eq!(tokens, line_of_code.tokens)
}

#[test]
fn rem_without_following_text_gives_empty_comment() {
    let line_of_code = tokenize_line("10 REM").unwrap();
    let tokens: Vec<TokenAndPos> = vec![
        TokenAndPos(3, Token::Rem),
        TokenAndPos(7, Token::Comment("".to_string())),
    ];
    assert_eq!(tokens, line_of_code.tokens)
}

#[test]
fn rem_skips_exactly_one_following_character() {
    let line_of_code = tokenize_line("10 REM)X").unwrap();
    let tokens: Vec<TokenAndPos> = vec![
        TokenAndPos(3, Token::Rem),
        TokenAndPos(7, Token::Comment("X".to_string())),
    ];
    assert_eq!(tokens, line_of_code.tokens)
}

#[test]
fn comment_offset_is_rem_offset_plus_four() {
    let line_of_code = tokenize_line("10   REM NOTE").unwrap();
    let tokens: Vec<TokenAndPos> = vec![
        TokenAndPos(5, Token::Rem),
        TokenAndPos(9, Token::Comment("NOTE".to_string())),
    ];
    assert_eq!(tokens, line_of_code.tokens)
}

#[test]
fn number_run_outside_i32_range_is_unrecognized() {
    assert_eq!(
        tokenize_line("10 LET A = 2147483648"),
        Err(TokenizeError::UnrecognizedToken { text: "2147483648".to_string(), pos: 11 })
    );
    let ok = tokenize_line("10 LET A = 2147483647").unwrap();
    assert_eq!(TokenAndPos(11, Token::Number(2147483647)), ok.tokens[3]);
}

#[test]
fn if_then_comparison_line() {
    let line_of_code = tokenize_line("20 IF A <= 10 THEN GOTO 99").unwrap();
    assert_eq!(LineNumber(20), line_of_code.line_number);
    let tokens: Vec<TokenAndPos> = vec![
        TokenAndPos(3, Token::If),
        TokenAndPos(6, Token::Variable("A".to_string())),
        TokenAndPos(8, Token::LessThanEqual),
        TokenAndPos(11, Token::Number(10)),
        TokenAndPos(14, Token::Then),
        TokenAndPos(19, Token::Goto),
        TokenAndPos(24, Token::Number(99)),
    ];
    assert_eq!(tokens, line_of_code.tokens)
}

#[test]
fn token_for_string_knows_every_spelling() {
    assert_eq!(Token::token_for_string("="), Some(Token::Equals));
    assert_eq!(Token::token_for_string("<"), Some(Token::LessThan));
    assert_eq!(Token::token_for_string(">"), Some(Token::GreaterThan));
    assert_eq!(Token::token_for_string("<="), Some(Token::LessThanEqual));
    assert_eq!(Token::token_for_string(">="), Some(Token::GreaterThanEqual));
    assert_eq!(Token::token_for_string("<>"), Some(Token::NotEqual));
    assert_eq!(Token::token_for_string("*"), Some(Token::Multiply));
    assert_eq!(Token::token_for_string("/"), Some(Token::Divide));
    assert_eq!(Token::token_for_string("-"), Some(Token::Minus));
    assert_eq!(Token::token_for_string("+"), Some(Token::Plus));
    assert_eq!(Token::token_for_string("("), Some(Token::LParen));
    assert_eq!(Token::token_for_string(")"), Some(Token::RParen));
    assert_eq!(Token::token_for_string("!"), Some(Token::Bang));
    assert_eq!(Token::token_for_string("GOTO"), Some(Token::Goto));
    assert_eq!(Token::token_for_string("IF"), Some(Token::If));
    assert_eq!(Token::token_for_string("INPUT"), Some(Token::Input));
    assert_eq!(Token::token_for_string("LET"), Some(Token::Let));
    assert_eq!(Token::token_for_string("PRINT"), Some(Token::Print));
    assert_eq!(Token::token_for_string("REM"), Some(Token::Rem));
    assert_eq!(Token::token_for_string("THEN"), Some(Token::Then));
    assert_eq!(Token::token_for_string("goto"), None);
    assert_eq!(Token::token_for_string("GO"), None);
    assert_eq!(Token::token_for_string(""), None);
}

#[test]
fn precedence_tiers_are_ordered() {
    assert_eq!(Token::Multiply.operator_precedence(), Ok(10));
    assert_eq!(Token::Divide.operator_precedence(), Ok(10));
    assert_eq!(Token::Minus.operator_precedence(), Ok(8));
    assert_eq!(Token::Plus.operator_precedence(), Ok(8));
    assert_eq!(Token::Equals.operator_precedence(), Ok(4));
    assert_eq!(Token::LessThan.operator_precedence(), Ok(4));
    assert_eq!(Token::GreaterThan.operator_precedence(), Ok(4));
    assert_eq!(Token::LessThanEqual.operator_precedence(), Ok(4));
    assert_eq!(Token::GreaterThanEqual.operator_precedence(), Ok(4));
    assert_eq!(Token::NotEqual.operator_precedence(), Ok(4));
    assert!(10 > 8 && 8 > 4);
}

#[test]
fn precedence_of_non_operator_fails() {
    assert_eq!(
        Token::Number(1).operator_precedence(),
        Err("Not an operator".to_string())
    );
    assert!(Token::UMinus.operator_precedence().is_err());
    assert!(Token::Bang.operator_precedence().is_err());
    assert!(Token::LParen.operator_precedence().is_err());
    assert!(Token::Rem.operator_precedence().is_err());
}

#[test]
fn operator_and_value_sets_are_disjoint() {
    let ops = vec![
        Token::Equals,
        Token::LessThan,
        Token::GreaterThan,
        Token::LessThanEqual,
        Token::GreaterThanEqual,
        Token::NotEqual,
        Token::Multiply,
        Token::Divide,
        Token::Minus,
        Token::Plus,
    ];
    for t in &ops {
        assert!(t.is_operator());
        assert!(!t.is_value());
    }
    let values = vec![
        Token::Variable("A".to_string()),
        Token::Number(7),
        Token::BString("S".to_string()),
    ];
    for t in &values {
        assert!(t.is_value());
        assert!(!t.is_operator());
    }
    assert!(!Token::UMinus.is_operator());
    assert!(!Token::Bang.is_operator());
    assert!(!Token::Comment("C".to_string()).is_value());
}

#[test]
fn identifier_shapes() {
    assert!(basic_lexer::is_valid_identifier("A"));
    assert!(basic_lexer::is_valid_identifier("counter_2"));
    assert!(!basic_lexer::is_valid_identifier(""));
    assert!(!basic_lexer::is_valid_identifier("_A"));
    assert!(!basic_lexer::is_valid_identifier("9A"));
    assert!(!basic_lexer::is_valid_identifier("A-B"));
}

#[test]
fn line_numbers_order_by_value() {
    assert!(LineNumber(5) < LineNumber(10));
    assert!(LineNumber(10) == LineNumber(10));
    assert!(LineNumber(100) > LineNumber(99));
}
