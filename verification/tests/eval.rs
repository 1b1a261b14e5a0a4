use cliscau::interp::MathIntepreter;
use cliscau::lexer::{Lexer, Token};
use cliscau::parser::{Operator, ParseError, Parser};

fn read_value(interp: &mut MathIntepreter, line: &str) -> f64 {
    let out = match interp.read(line) {
        Ok(out) => out,
        Err(_) => panic!("line failed to parse: {}", line),
    };
    f64::from_bits(out.value.expect("line produced no value"))
}

fn eval(line: &str) -> f64 {
    let mut interp = MathIntepreter::new();
    read_value(&mut interp, line)
}

fn var(interp: &MathIntepreter, name: &str) -> Option<f64> {
    interp.get_vars().get(name).map(|b| f64::from_bits(*b))
}

#[test]
fn multiplication_binds_before_addition() {
    assert_eq!(eval("2 + 3 * 4"), 14.0);
}

#[test]
fn parentheses_override_precedence() {
    assert_eq!(eval("(2 + 3) * 4"), 20.0);
}

#[test]
fn power_is_left_associative() {
    let v = eval("2 ^ 3 ^ 2");
    assert_eq!(v, 64.0);
    assert_ne!(v, 512.0);
}

#[test]
fn bound_variable_is_read_back() {
    let mut interp = MathIntepreter::new();
    assert_eq!(read_value(&mut interp, "x = 5"), 5.0);
    assert_eq!(read_value(&mut interp, "x + 1"), 6.0);
    assert_eq!(var(&interp, "x"), Some(5.0));
    assert_eq!(interp.var_names().len(), 1);
    assert_eq!(interp.var_names()[0].as_str(), "x");
}

#[test]
fn unbound_variable_substitutes_zero_and_reports() {
    let mut interp = MathIntepreter::new();
    let out = interp.read("y + 1").expect("must not be a fatal error");
    assert_eq!(f64::from_bits(out.value.unwrap()), 1.0);
    assert_eq!(out.unbound.len(), 1);
    assert_eq!(out.unbound[0].as_str(), "y");
    assert_eq!(var(&interp, "y"), None);
}

#[test]
fn unclosed_parenthesis_fails_and_leaves_environment_unchanged() {
    let mut interp = MathIntepreter::new();
    read_value(&mut interp, "x = 1");
    let r = interp.read("(1 + 2");
    assert!(matches!(r, Err(ParseError::UnclosedParenthesis)));
    assert_eq!(var(&interp, "x"), Some(1.0));
    assert_eq!(interp.get_vars().len(), 1);
}

#[test]
fn empty_line_yields_no_value_and_no_error() {
    let mut interp = MathIntepreter::new();
    let out = interp.read("").expect("empty line must not fail");
    assert!(out.value.is_none());
    assert!(out.unbound.is_empty());
    assert_eq!(interp.get_vars().len(), 0);
}

#[test]
fn rebinding_overwrites_instead_of_accumulating() {
    let mut interp = MathIntepreter::new();
    read_value(&mut interp, "x = 2");
    read_value(&mut interp, "x = 2");
    assert_eq!(var(&interp, "x"), Some(2.0));
    assert_eq!(interp.get_vars().len(), 1);
    assert_eq!(interp.var_names().len(), 1);
}

#[test]
fn unary_minus_applies_to_the_base_of_a_power() {
    // The grammar parses `-2^2` as `(-2)^2`: the unary sign is part of the
    // first term, so the result is 4, not -(2^2).
    assert_eq!(eval("-2^2"), 4.0);
    assert_eq!(eval("-(2^2)"), -4.0);
}

#[test]
fn unary_operators_apply_to_terms() {
    assert_eq!(eval("-2"), -2.0);
    assert_eq!(eval("+2"), 2.0);
    assert_eq!(eval("--2"), 2.0);
}

#[test]
fn subtraction_and_division_are_left_associative() {
    assert_eq!(eval("8 - 3 - 2"), 3.0);
    assert_eq!(eval("8 / 4 / 2"), 1.0);
}

#[test]
fn division_by_zero_follows_floating_point_semantics() {
    assert_eq!(eval("1 / 0"), f64::INFINITY);
    assert_eq!(eval("-1 / 0"), f64::NEG_INFINITY);
    assert!(eval("0 / 0").is_nan());
}

#[test]
fn power_supports_fractional_and_negative_exponents() {
    assert_eq!(eval("4 ^ 0.5"), 2.0);
    assert_eq!(eval("2 ^ -1"), 0.5);
    assert_eq!(eval("0 ^ 0"), 1.0);
}

#[test]
fn decimal_forms_convert() {
    assert_eq!(eval(".5"), 0.5);
    assert_eq!(eval("5."), 5.0);
    assert_eq!(eval("2.5 * 2"), 5.0);
    assert_eq!(eval("0.1 + 0.2"), 0.1f64 + 0.2f64);
}

#[test]
fn malformed_number_is_a_number_format_error() {
    let mut interp = MathIntepreter::new();
    let r = interp.read("1.2.3");
    match r {
        Err(ParseError::NumberFormat(s)) => assert_eq!(s.as_str(), "1.2.3"),
        _ => panic!("expected a number format error"),
    }
}

#[test]
fn empty_parentheses_are_an_error() {
    let mut interp = MathIntepreter::new();
    assert!(matches!(interp.read("()"), Err(ParseError::EmptyParenthesis)));
}

#[test]
fn missing_separator_is_an_unexpected_token() {
    let mut interp = MathIntepreter::new();
    assert!(matches!(interp.read("2 3"), Err(ParseError::UnexpectedToken(_))));
}

#[test]
fn operator_without_operand_is_an_unexpected_token() {
    let mut interp = MathIntepreter::new();
    assert!(matches!(interp.read("2 +"), Err(ParseError::UnexpectedToken(_))));
    assert!(matches!(interp.read("* 3"), Err(ParseError::UnexpectedToken(_))));
}

#[test]
fn unknown_character_surfaces_as_unexpected_token() {
    let mut interp = MathIntepreter::new();
    assert!(matches!(interp.read("2 $ 2"), Err(ParseError::UnexpectedToken(_))));
}

#[test]
fn non_operator_token_is_an_invalid_operator() {
    assert!(matches!(
        Operator::from(Token::LParen),
        Err(ParseError::InvalidOperator(_))
    ));
    assert!(matches!(Operator::from(Token::Power), Ok(Operator::Power)));
}

#[test]
fn statements_run_left_to_right_sharing_bindings() {
    let mut interp = MathIntepreter::new();
    let out = interp.read("a = 1; a + 1").expect("line must parse");
    assert_eq!(f64::from_bits(out.value.unwrap()), 2.0);
    assert_eq!(var(&interp, "a"), Some(1.0));
}

#[test]
fn assignment_nests_as_a_subexpression() {
    let mut interp = MathIntepreter::new();
    assert_eq!(read_value(&mut interp, "a = b = 3"), 3.0);
    assert_eq!(var(&interp, "a"), Some(3.0));
    assert_eq!(var(&interp, "b"), Some(3.0));
}

#[test]
fn parser_builds_one_node_per_statement() {
    let toks = Lexer::new("1; 2; 3").tokenize();
    let mut p = Parser::new(&toks);
    assert!(p.parse().is_ok());
    assert_eq!(p.get_ast().nodes().len(), 3);
}

#[test]
fn parse_error_discards_partial_program() {
    let toks = Lexer::new("1; (2").tokenize();
    let mut p = Parser::new(&toks);
    assert!(p.parse().is_err());
    assert_eq!(p.get_ast().nodes().len(), 0);
}

#[test]
fn evaluation_order_is_left_before_right() {
    let mut interp = MathIntepreter::new();
    // The left operand's assignment is visible to the right operand.
    let out = interp.read("(a = 2) + a").expect("line must parse");
    assert_eq!(f64::from_bits(out.value.unwrap()), 4.0);
}

#[test]
fn subtraction_and_addition_compute() {
    assert_eq!(eval("5 - 2"), 3.0);
    assert_eq!(eval("5 + 2"), 7.0);
    assert_eq!(eval("1 / 2"), 0.5);
    assert_eq!(eval("3 * 7"), 21.0);
}
