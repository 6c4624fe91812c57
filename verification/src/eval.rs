//! Arithmetic on Roman numerals and the calculator form state.

use vstd::prelude::*;

use crate::numeral::arabic_to_roman;
use crate::numeral::parse_accepts;
use crate::numeral::parse_error_of;
use crate::numeral::roman_of;
use crate::numeral::roman_to_arabic;
use crate::numeral::roman_value;
use crate::numeral::ParseError;

verus! {

/// One of the four arithmetic operations.
#[derive(Clone, Copy, Debug, PartialEq, Eq)]
pub enum Operation {
    Add,
    Subtract,
    Multiply,
    Divide,
}

/// Why an evaluation failed.
#[derive(Clone, Copy, Debug, PartialEq, Eq)]
pub enum EvalError {
    /// The first operand failed to parse.
    FirstOperand(ParseError),
    /// The second operand failed to parse.
    SecondOperand(ParseError),
    /// Division with a second operand of value zero.
    DivisionByZero,
    /// The arithmetic result lies outside 1..=3999.
    ResultOutOfRange,
}

/// The arithmetic result of `op` on two operand values. Division is
/// integer division; its value here only matters for `n2 > 0`, where
/// it truncates as the machine division does.
pub open spec fn apply_op(n1: int, n2: int, op: Operation) -> int {
    match op {
        Operation::Add => n1 + n2,
        Operation::Subtract => n1 - n2,
        Operation::Multiply => n1 * n2,
        Operation::Divide => if n2 == 0 {
            0
        } else {
            n1 / n2
        },
    }
}

/// The outcome of evaluating two numeral strings under `op`: the
/// canonical numeral of the arithmetic result, or the first failure in
/// the order first operand, second operand, division by zero, range.
pub open spec fn eval_spec(s1: Seq<char>, s2: Seq<char>, op: Operation) -> Result<
    Seq<char>,
    EvalError,
> {
    if !parse_accepts(s1) {
        Err(EvalError::FirstOperand(parse_error_of(s1)))
    } else if !parse_accepts(s2) {
        Err(EvalError::SecondOperand(parse_error_of(s2)))
    } else {
        let n1 = roman_value(s1);
        let n2 = roman_value(s2);
        if op == Operation::Divide && n2 == 0 {
            Err(EvalError::DivisionByZero)
        } else {
            let v = apply_op(n1, n2, op);
            if 1 <= v <= 3999 {
                Ok(roman_of(v))
            } else {
                Err(EvalError::ResultOutOfRange)
            }
        }
    }
}

/// Parses both operands, applies `op`, checks the range, and formats
/// the result as a canonical numeral.
pub fn evaluate(input1: &str, input2: &str, op: Operation) -> (r: Result<String, EvalError>)
    ensures
        match r {
            Ok(out) => eval_spec(input1@, input2@, op) == Ok::<Seq<char>, EvalError>(out@),
            Err(e) => eval_spec(input1@, input2@, op) == Err::<Seq<char>, EvalError>(e),
        },
{
    let n1 = match roman_to_arabic(input1) {
        Ok(n) => n,
        Err(e) => {
            return Err(EvalError::FirstOperand(e));
        },
    };
    let n2 = match roman_to_arabic(input2) {
        Ok(n) => n,
        Err(e) => {
            return Err(EvalError::SecondOperand(e));
        },
    };
    let result: i32 = match op {
        Operation::Add => n1 + n2,
        Operation::Subtract => n1 - n2,
        Operation::Multiply => {
            proof {
                assert(n1 as int * n2 as int <= 3999 * 3999) by (nonlinear_arith)
                    requires
                        1 <= n1 as int <= 3999,
                        1 <= n2 as int <= 3999,
                ;
            }
            n1 * n2
        },
        Operation::Divide => {
            if n2 == 0 {
                return Err(EvalError::DivisionByZero);
            }
            n1 / n2
        },
    };
    if result <= 0 || result > 3999 {
        return Err(EvalError::ResultOutOfRange);
    }
    Ok(arabic_to_roman(result))
}

/// The calculator form: two numeral inputs, the chosen operation, and
/// the outcome of the last calculation.
pub struct RomanCalculatorApp {
    pub input1: String,
    pub input2: String,
    pub result: String,
    pub error: Option<EvalError>,
    pub operation: Operation,
}

impl RomanCalculatorApp {
    /// A fresh form: empty inputs, no result, no error, addition chosen.
    pub fn new() -> (app: Self)
        ensures
            app.input1@ == Seq::<char>::empty(),
            app.input2@ == Seq::<char>::empty(),
            app.result@ == Seq::<char>::empty(),
            app.error is None,
            app.operation == Operation::Add,
    {
        RomanCalculatorApp {
            input1: String::new(),
            input2: String::new(),
            result: String::new(),
            error: None,
            operation: Operation::Add,
        }
    }

    /// Evaluates the current form. On success the formatted result is
    /// stored and the error cleared; on failure the error is stored and
    /// the previous result is left in place. The inputs and the chosen
    /// operation are never changed.
    pub fn calculate(&mut self)
        ensures
            final(self).input1 == old(self).input1,
            final(self).input2 == old(self).input2,
            final(self).operation == old(self).operation,
            match eval_spec(old(self).input1@, old(self).input2@, old(self).operation) {
                Ok(out) => final(self).error is None && final(self).result@ == out,
                Err(e) => final(self).error == Some(e) && final(self).result == old(self).result,
            },
    {
        match evaluate(self.input1.as_str(), self.input2.as_str(), self.operation) {
            Ok(out) => {
                self.result = out;
                self.error = None;
            },
            Err(e) => {
                self.error = Some(e);
            },
        }
    }
}

} // verus!
