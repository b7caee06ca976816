use sb_assembler::expr::{lex, parse, Token};

#[test]
fn test_lex() {
    println!("{:?}", lex("10"));
    println!("{:?}", lex(""));
    println!("{:?}", lex("10+"));
    println!("{:?}", lex("10-"));
    println!("{:?}", lex("10 -"));
    println!("{:?}", lex("10 - \n     \t"));
    println!("{:?}", lex("10 - 20 + 30 - 40"));
    println!("{:?}", lex("10 - (20 + 30) - 40"));
    println!("{:?}", lex("10 * (20 + 30) - 40"));
    println!("{:?}", lex("10 / (20 + 30) - 40"));
}

#[test]
fn test_parse() {
    // Ok
    assert!(parse(lex("10")).is_ok());
    assert!(parse(lex("10 - 20 + 30 - 40")).is_ok());
    assert!(parse(lex("10 - (20 + 30) - 40")).is_ok());
    assert!(parse(lex("10 * (20 + 30) - 40")).is_ok());
    assert!(parse(lex("10 / (20 + 30) - 40")).is_ok());

    // Err
    assert!(parse(lex("")).is_err());
    assert!(parse(lex("10+")).is_err());
    assert!(parse(lex("10-")).is_err());
    assert!(parse(lex("10 -")).is_err());
    assert!(parse(lex("10 - \n     \t")).is_err());
}

#[test]
fn lex_reads_tokens_exactly() {
    assert_eq!(lex("1 + 23"), vec![Token::Number(1), Token::Plus, Token::Number(23)]);
    assert_eq!(
        lex("(4*5)/6"),
        vec![
            Token::ParenthesisL,
            Token::Number(4),
            Token::Mul,
            Token::Number(5),
            Token::ParenthesisR,
            Token::Div,
            Token::Number(6),
        ]
    );
}
