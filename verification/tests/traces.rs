use rpn_calc::arith::ArithmeticFault;
use rpn_calc::eval::step;
use rpn_calc::text::to_chars;
use rpn_calc::trace::TraceStep;
use rpn_calc::{EvalError, RpnCalculator};

fn entry(remaining: &[&str], stack: &[i32]) -> TraceStep {
    TraceStep { remaining: remaining.iter().map(|t| t.to_string()).collect(), stack: stack.to_vec() }
}

#[test]
fn quiet_calculator_records_nothing() {
    let calc = RpnCalculator::new(false);
    assert_eq!(calc.eval_traced("2 3 +"), (Ok(5), vec![]));
    assert_eq!(calc.eval_traced("+"), (Err(EvalError::SyntaxError { position: Some(1) }), vec![]));
}

#[test]
fn verbose_calculator_records_each_token() {
    let calc = RpnCalculator::new(true);
    let (value, steps) = calc.eval_traced("2 3 +");
    assert_eq!(value, Ok(5));
    assert_eq!(
        steps,
        vec![entry(&["+", "3"], &[2]), entry(&["+"], &[2, 3]), entry(&[], &[5])]
    );
}

#[test]
fn record_of_a_longer_line() {
    let calc = RpnCalculator::new(true);
    let (value, steps) = calc.eval_traced(" 1 2 +  3 * ");
    assert_eq!(value, Ok(9));
    assert_eq!(
        steps,
        vec![
            entry(&["*", "3", "+", "2"], &[1]),
            entry(&["*", "3", "+"], &[1, 2]),
            entry(&["*", "3"], &[3]),
            entry(&["*"], &[3, 3]),
            entry(&[], &[9]),
        ]
    );
}

#[test]
fn record_stops_before_the_failing_token() {
    let calc = RpnCalculator::new(true);
    let (value, steps) = calc.eval_traced("1 + 2");
    assert_eq!(value, Err(EvalError::SyntaxError { position: Some(2) }));
    assert_eq!(steps, vec![entry(&["2", "+"], &[1])]);
    let (value, steps) = calc.eval_traced("4 0 / 7");
    assert_eq!(value, Err(EvalError::ArithmeticError { fault: ArithmeticFault::DivisionByZero }));
    assert_eq!(steps, vec![entry(&["7", "/", "0"], &[4]), entry(&["7", "/"], &[4, 0])]);
    let (value, steps) = calc.eval_traced("x");
    assert_eq!(value, Err(EvalError::SyntaxError { position: Some(1) }));
    assert_eq!(steps, vec![]);
}

#[test]
fn record_is_complete_when_only_the_end_fails() {
    let calc = RpnCalculator::new(true);
    let (value, steps) = calc.eval_traced("1 1 1 +");
    assert_eq!(value, Err(EvalError::SyntaxError { position: None }));
    assert_eq!(
        steps,
        vec![
            entry(&["+", "1", "1"], &[1]),
            entry(&["+", "1"], &[1, 1]),
            entry(&["+"], &[1, 1, 1]),
            entry(&[], &[1, 2]),
        ]
    );
    assert_eq!(calc.eval_traced(""), (Err(EvalError::SyntaxError { position: None }), vec![]));
}

#[test]
fn record_keeps_tokens_as_written() {
    let calc = RpnCalculator::new(true);
    let (value, steps) = calc.eval_traced("007 é\u{3000}-0");
    assert_eq!(value, Err(EvalError::SyntaxError { position: Some(2) }));
    assert_eq!(steps, vec![entry(&["-0", "é"], &[7])]);
}

#[test]
fn step_pushes_an_operand() {
    let mut stack = vec![1];
    assert_eq!(step(&mut stack, &to_chars("-12"), 2), Ok(()));
    assert_eq!(stack, vec![1, -12]);
}

#[test]
fn step_replaces_two_values_by_the_result() {
    let mut stack = vec![9, 10, 3];
    assert_eq!(step(&mut stack, &to_chars("-"), 4), Ok(()));
    assert_eq!(stack, vec![9, 7]);
    assert_eq!(step(&mut stack, &to_chars("%"), 5), Ok(()));
    assert_eq!(stack, vec![2]);
}

#[test]
fn step_that_fails_leaves_the_stack() {
    let mut stack = vec![5];
    assert_eq!(step(&mut stack, &to_chars("+"), 7), Err(EvalError::SyntaxError { position: Some(7) }));
    assert_eq!(stack, vec![5]);
    let mut stack = vec![5, 0];
    assert_eq!(
        step(&mut stack, &to_chars("/"), 3),
        Err(EvalError::ArithmeticError { fault: ArithmeticFault::DivisionByZero })
    );
    assert_eq!(stack, vec![5, 0]);
    assert_eq!(step(&mut stack, &to_chars("?"), 3), Err(EvalError::InvalidTokenError { position: 3 }));
    assert_eq!(stack, vec![5, 0]);
    let mut stack = vec![i32::MAX, i32::MAX];
    assert_eq!(
        step(&mut stack, &to_chars("*"), 3),
        Err(EvalError::ArithmeticError { fault: ArithmeticFault::Overflow })
    );
    assert_eq!(stack, vec![i32::MAX, i32::MAX]);
}
