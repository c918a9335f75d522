use shunting_yard::error::ParseError;
use shunting_yard::operator::Operator;
use shunting_yard::token::Token;

#[test]
fn operator_parse_symbols() {
    assert_eq!(Some(Operator::Add), Operator::parse("+"));
    assert_eq!(Some(Operator::Sub), Operator::parse("-"));
    assert_eq!(Some(Operator::Mult), Operator::parse("*"));
    assert_eq!(None, Operator::parse("/"));
    assert_eq!(None, Operator::parse("++"));
    assert_eq!(None, Operator::parse(""));
}

#[test]
fn operator_eval_arithmetic() {
    assert_eq!(5, Operator::Add.eval(2, 3));
    assert_eq!(-1, Operator::Sub.eval(2, 3));
    assert_eq!(6, Operator::Mult.eval(2, 3));
}

#[test]
fn operator_precedence_ranks() {
    assert_eq!(1, Operator::Add.precedence());
    assert_eq!(1, Operator::Sub.precedence());
    assert_eq!(2, Operator::Mult.precedence());
}

#[test]
fn tokenize_full_expression() {
    assert_eq!(
        Ok(vec![
            Token::LeftParen,
            Token::Number(1),
            Token::BinOp(Operator::Add),
            Token::Number(1),
            Token::RightParen,
        ]),
        Token::tokenize("( 1 + 1 )")
    );
}

#[test]
fn tokenize_keeps_input_order() {
    assert_eq!(
        Ok(vec![
            Token::Number(12),
            Token::BinOp(Operator::Sub),
            Token::Number(-7),
        ]),
        Token::tokenize("12 - -7")
    );
}

#[test]
fn tokenize_rejects_bad_pieces() {
    assert_eq!(Err(ParseError::UnrecognizedToken), Token::tokenize("yolo"));
    assert_eq!(Err(ParseError::UnrecognizedToken), Token::tokenize("1 ?"));
    // A doubled space makes an empty piece, which matches nothing.
    assert_eq!(Err(ParseError::UnrecognizedToken), Token::tokenize("1  + 1"));
}
