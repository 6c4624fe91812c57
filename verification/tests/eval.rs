use roman_calc::eval::evaluate;
use roman_calc::eval::EvalError;
use roman_calc::eval::Operation;
use roman_calc::eval::RomanCalculatorApp;
use roman_calc::numeral::ParseError;

#[test]
fn evaluate_end_to_end() {
    assert_eq!(evaluate("X", "II", Operation::Add).unwrap(), "XII");
    assert_eq!(evaluate("X", "II", Operation::Subtract).unwrap(), "VIII");
    assert_eq!(evaluate("X", "II", Operation::Multiply).unwrap(), "XX");
    assert_eq!(evaluate("X", "II", Operation::Divide).unwrap(), "V");
}

#[test]
fn evaluate_rejects_result_out_of_range() {
    assert_eq!(
        evaluate("III", "III", Operation::Subtract),
        Err(EvalError::ResultOutOfRange)
    );
    assert_eq!(
        evaluate("MMM", "MM", Operation::Add),
        Err(EvalError::ResultOutOfRange)
    );
    assert_eq!(
        evaluate("MM", "MM", Operation::Multiply),
        Err(EvalError::ResultOutOfRange)
    );
}

#[test]
fn evaluate_tags_the_failing_operand() {
    assert_eq!(
        evaluate("", "X", Operation::Add),
        Err(EvalError::FirstOperand(ParseError::EmptyInput))
    );
    assert_eq!(
        evaluate("A", "X", Operation::Add),
        Err(EvalError::FirstOperand(ParseError::InvalidSymbol('A')))
    );
    assert_eq!(
        evaluate("X", "MMMM", Operation::Add),
        Err(EvalError::SecondOperand(ParseError::OutOfRange))
    );
}

#[test]
fn evaluate_divide_by_empty_operand_is_a_parse_failure() {
    assert_eq!(
        evaluate("X", "", Operation::Divide),
        Err(EvalError::SecondOperand(ParseError::EmptyInput))
    );
}

#[test]
fn evaluate_division_truncates() {
    assert_eq!(evaluate("X", "III", Operation::Divide).unwrap(), "III");
}

#[test]
fn calculate_stores_result_and_clears_error() {
    let mut app = RomanCalculatorApp::new();
    app.input1 = String::from("XIV");
    app.input2 = String::from("VI");
    app.operation = Operation::Add;
    app.calculate();
    assert_eq!(app.result, "XX");
    assert_eq!(app.error, None);
}

#[test]
fn calculate_keeps_previous_result_on_error() {
    let mut app = RomanCalculatorApp::new();
    app.input1 = String::from("X");
    app.input2 = String::from("II");
    app.operation = Operation::Multiply;
    app.calculate();
    assert_eq!(app.result, "XX");

    app.input2 = String::from("not a numeral");
    app.calculate();
    assert_eq!(
        app.error,
        Some(EvalError::SecondOperand(ParseError::InvalidSymbol('a')))
    );
    assert_eq!(app.result, "XX");
}
