use gumc::lexer::Token;

fn id(s: &str) -> Result<Token, ()> {
    Ok(Token::Identifier(s.to_string()))
}

#[test]
fn words_signs_and_literals() {
    assert_eq!(
        Token::lexer("use gum.x // trailing\nfn f_1() -> u256"),
        vec![
            Ok(Token::Use),
            id("gum"),
            Ok(Token::Dot),
            id("x"),
            Ok(Token::Fn),
            id("f_1"),
            Ok(Token::LParen),
            Ok(Token::RParen),
            Ok(Token::Arrow),
            Ok(Token::TypeKeyword),
        ]
    );
}

#[test]
fn the_longest_reading_wins() {
    assert_eq!(
        Token::lexer("== = => >= > user Account Accounts in int"),
        vec![
            Ok(Token::EqEq),
            Ok(Token::Assign),
            Ok(Token::FatArrow),
            Ok(Token::GtEq),
            Ok(Token::Gt),
            id("user"),
            Ok(Token::TypeKeyword),
            id("Accounts"),
            Ok(Token::In),
            id("int"),
        ]
    );
}

#[test]
fn numbers_and_strings() {
    assert_eq!(
        Token::lexer("42 18446744073709551615 18446744073709551616 \"a\\\"b\" / 7"),
        vec![
            Ok(Token::Integer(42)),
            Ok(Token::Integer(u64::MAX)),
            Ok(Token::Integer(0)),
            Ok(Token::StringLiteral("\"a\\\"b\"".to_string())),
            Ok(Token::Slash),
            Ok(Token::Integer(7)),
        ]
    );
}

#[test]
fn what_is_no_word_is_an_error() {
    assert_eq!(Token::lexer("a ! b"), vec![id("a"), Err(()), id("b")]);
    assert_eq!(Token::lexer("\"a\\q\""), vec![Err(()), id("q"), Err(())]);
    assert_eq!(Token::lexer("\u{e9}|"), vec![Err(()), Err(())]);
    assert_eq!(Token::lexer(" \t\n\u{c}"), vec![]);
}
