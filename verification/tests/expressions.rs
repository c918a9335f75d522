use shunting_yard::error::ParseError;
use shunting_yard::expr::Expression;
use shunting_yard::operator::Operator;

#[test]
fn parse_simple_val() {
    assert_eq!(Expression::Value(1), Expression::parse("1").unwrap());
}

#[test]
fn parse_one_plus_one() {
    assert_eq!(
        Expression::Operation(
            Operator::Add,
            Box::new(Expression::Value(1)),
            Box::new(Expression::Value(1))
        ),
        Expression::parse("1 + 1").unwrap()
    );
}

#[test]
fn eval_single_value() {
    assert_eq!(1, Expression::parse("1").unwrap().eval());
}

#[test]
fn eval_one_plus_one() {
    assert_eq!(2, Expression::parse("1 + 1").unwrap().eval());
}

#[test]
fn addition_and_subtraction() {
    assert_eq!(8, Expression::parse("5 - 6 + 12 - 3").unwrap().eval());
}

#[test]
fn subtraction() {
    assert_eq!(5, Expression::parse("12 - 7").unwrap().eval());
}

#[test]
fn mult_sub_add() {
    assert_eq!(104, Expression::parse("3 + 5 * 21 - 6 + 2").unwrap().eval())
}

#[test]
fn operator_precendence() {
    assert!(Operator::Add < Operator::Mult);
    assert!(Operator::Sub < Operator::Mult);
    assert!(Operator::Mult > Operator::Add);
    assert!(Operator::Add == Operator::Add);
}

#[test]
fn garbage_parse() {
    assert_eq!(
        Err(ParseError::UnrecognizedToken),
        Expression::parse("yolo swag")
    );
}

#[test]
fn simple_parenthesis() {
    assert_eq!(2, Expression::parse("( 1 + 1 )").unwrap().eval());
}

#[test]
fn parenthesis2() {
    assert_eq!(23, Expression::parse("5 + 6 * 3").unwrap().eval());
    assert_eq!(33, Expression::parse("( 5 + 6 ) * 3").unwrap().eval());
}

#[test]
fn left_associative_tree_shape() {
    // "5 - 6 + 12 - 3" groups as ((5 - 6) + 12) - 3
    let five_minus_six = Expression::Operation(
        Operator::Sub,
        Box::new(Expression::Value(5)),
        Box::new(Expression::Value(6)),
    );
    let plus_twelve = Expression::Operation(
        Operator::Add,
        Box::new(five_minus_six),
        Box::new(Expression::Value(12)),
    );
    let minus_three = Expression::Operation(
        Operator::Sub,
        Box::new(plus_twelve),
        Box::new(Expression::Value(3)),
    );
    assert_eq!(minus_three, Expression::parse("5 - 6 + 12 - 3").unwrap());
}

#[test]
fn same_input_evaluates_the_same_twice() {
    let first = Expression::parse("3 + 5 * 21 - 6 + 2").unwrap().eval();
    let second = Expression::parse("3 + 5 * 21 - 6 + 2").unwrap().eval();
    assert_eq!(first, second);
    assert_eq!(104, first);
}

#[test]
fn multiplication_binds_tighter_in_tree() {
    // "1 + 2 * 3" groups as 1 + (2 * 3)
    let product = Expression::Operation(
        Operator::Mult,
        Box::new(Expression::Value(2)),
        Box::new(Expression::Value(3)),
    );
    let sum = Expression::Operation(
        Operator::Add,
        Box::new(Expression::Value(1)),
        Box::new(product),
    );
    assert_eq!(sum, Expression::parse("1 + 2 * 3").unwrap());
    assert_eq!(7, Expression::parse("1 + 2 * 3").unwrap().eval());
}

#[test]
fn mismatched_closing_parenthesis() {
    assert_eq!(
        Err(ParseError::MismatchedParentheses),
        Expression::parse("1 )")
    );
}

#[test]
fn trailing_operator_is_incomplete() {
    assert_eq!(
        Err(ParseError::IncompleteExpression),
        Expression::parse("1 +")
    );
}

#[test]
fn doubled_operator_is_incomplete() {
    assert_eq!(
        Err(ParseError::IncompleteExpression),
        Expression::parse("1 + + 1")
    );
}

#[test]
fn empty_input_is_unrecognized() {
    assert_eq!(Err(ParseError::UnrecognizedToken), Expression::parse(""));
}

#[test]
fn undelimited_expression_is_unrecognized() {
    // Tokens must be separated by single spaces: "1+1" is one bad piece.
    assert_eq!(Err(ParseError::UnrecognizedToken), Expression::parse("1+1"));
}

#[test]
fn signed_literals() {
    assert_eq!(Expression::Value(-5), Expression::parse("-5").unwrap());
    assert_eq!(Expression::Value(7), Expression::parse("+7").unwrap());
    assert_eq!(-6, Expression::parse("2 * -3").unwrap().eval());
}

#[test]
fn extreme_literals() {
    assert_eq!(2147483647, Expression::parse("2147483647").unwrap().eval());
    assert_eq!(
        -2147483648,
        Expression::parse("-2147483648").unwrap().eval()
    );
    assert_eq!(
        Err(ParseError::UnrecognizedToken),
        Expression::parse("2147483648")
    );
}

#[test]
fn nested_parentheses() {
    assert_eq!(21, Expression::parse("( ( 1 + 2 ) * 7 )").unwrap().eval());
    assert_eq!(9, Expression::parse("3 * ( 5 - 2 )").unwrap().eval());
}

#[test]
fn cloned_tree_is_equal() {
    let parsed = Expression::parse("( 5 + 6 ) * 3").unwrap();
    let copy = parsed.clone();
    assert_eq!(parsed, copy);
    assert_eq!(33, copy.eval());
}

#[test]
fn extra_operand_keeps_stack_top() {
    // With no operator to combine them, the later operand is the result.
    assert_eq!(Expression::Value(2), Expression::parse("1 2").unwrap());
}

#[test]
fn unclosed_parenthesis_still_resolves() {
    // Only a closing parenthesis without an open group is mismatched; an
    // unclosed group merely bounds popping, and the end-of-scan drain
    // still resolves the operators it holds.
    assert_eq!(2, Expression::parse("( 1 + 1").unwrap().eval());
}
