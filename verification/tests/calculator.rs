use calculator::eval::EvalStep;
use calculator::state::{Calculator, Message};
use calculator::token::{Operation, Token};

/// Folds an evaluation-step list into a number, exactly as the original
/// reduction pass does: double precision, left to right, with percentage
/// semantics relative for sum/subtract and absolute for multiply/divide.
fn fold_steps(steps: &[EvalStep]) -> f64 {
    let mut result: f64 = 0.0;
    for s in steps {
        match s {
            EvalStep::SetNumber(n) => {
                result = n.parse::<f64>().unwrap();
            }
            EvalStep::ApplyNumber(op, n) => {
                let x: f64 = n.parse().unwrap();
                match op {
                    Operation::Sum => result += x,
                    Operation::Subtract => result -= x,
                    Operation::Multiply => result *= x,
                    Operation::Divide => result /= x,
                    _ => unreachable!(),
                }
            }
            EvalStep::SetPercent(n) => {
                result = n.parse::<f64>().unwrap() / 100.0;
            }
            EvalStep::ApplyPercent(op, n) => {
                let f = n.parse::<f64>().unwrap() / 100.0;
                match op {
                    Operation::Sum => result += result * f,
                    Operation::Subtract => result -= result * f,
                    Operation::Multiply => result *= f,
                    Operation::Divide => result /= f,
                    _ => unreachable!(),
                }
            }
        }
    }
    result
}

/// Presses the buttons in order; on equals, folds the returned steps and
/// pushes the rendered result, as the shell does.
fn press(calc: &mut Calculator, presses: &[Message]) {
    for m in presses {
        if let Some(steps) = calc.update(*m) {
            let value = fold_steps(&steps);
            calc.push_result(format!("{}", value));
        }
    }
}

fn digit(d: u8) -> Message {
    Message::NumberButton(d)
}

fn op(o: Operation) -> Message {
    Message::OperationButton(o)
}

#[test]
fn digits_concatenate() {
    let mut c = Calculator::new();
    press(&mut c, &[digit(1), digit(2), digit(3)]);
    assert_eq!(c.display(), "123");
}

#[test]
fn fresh_display_is_empty() {
    let c = Calculator::new();
    assert_eq!(c.display(), "");
}

#[test]
fn default_is_fresh() {
    let c: Calculator = Default::default();
    assert_eq!(c.display(), "");
}

#[test]
fn ac_clears_everything() {
    let mut c = Calculator::new();
    press(&mut c, &[digit(1), op(Operation::Sum), digit(2)]);
    assert_eq!(c.display(), "1+2");
    press(&mut c, &[op(Operation::AC)]);
    assert_eq!(c.display(), "");
}

#[test]
fn second_dot_is_ignored() {
    let mut c = Calculator::new();
    press(&mut c, &[digit(1), op(Operation::Dot), digit(5)]);
    assert_eq!(c.display(), "1.5");
    press(&mut c, &[op(Operation::Dot)]);
    assert_eq!(c.display(), "1.5");
}

#[test]
fn dot_after_operator_blocked_by_earlier_dot() {
    // The scan for an existing dot looks at the number token nearest the
    // tail, even past an operator: no fresh "0." is opened.
    let mut c = Calculator::new();
    press(
        &mut c,
        &[digit(1), op(Operation::Dot), digit(5), op(Operation::Sum), op(Operation::Dot)],
    );
    assert_eq!(c.display(), "1.5+");
}

#[test]
fn dot_on_empty_opens_zero_buffer() {
    let mut c = Calculator::new();
    press(&mut c, &[op(Operation::Dot)]);
    assert_eq!(c.display(), "0.");
}

#[test]
fn dot_after_operator_opens_zero_buffer() {
    let mut c = Calculator::new();
    press(&mut c, &[digit(5), op(Operation::Sum), op(Operation::Dot)]);
    assert_eq!(c.display(), "5+0.");
}

#[test]
fn sign_change_toggles() {
    let mut c = Calculator::new();
    press(&mut c, &[digit(5)]);
    press(&mut c, &[op(Operation::SignChange)]);
    assert_eq!(c.display(), "-5");
    press(&mut c, &[op(Operation::SignChange)]);
    assert_eq!(c.display(), "5");
}

#[test]
fn sign_change_without_number_is_ignored() {
    let mut c = Calculator::new();
    press(&mut c, &[op(Operation::SignChange)]);
    assert_eq!(c.display(), "");
}

#[test]
fn sign_change_targets_percentage() {
    let mut c = Calculator::new();
    press(&mut c, &[digit(5), op(Operation::Percent), op(Operation::SignChange)]);
    assert_eq!(c.display(), "-5%");
}

#[test]
fn sign_change_targets_nearest_numeric_token() {
    let mut c = Calculator::new();
    press(&mut c, &[digit(5), op(Operation::Percent), digit(3), op(Operation::SignChange)]);
    assert_eq!(c.display(), "5%-3");
}

#[test]
fn sum_evaluates() {
    let mut c = Calculator::new();
    press(&mut c, &[digit(2), op(Operation::Sum), digit(3), op(Operation::Equals)]);
    assert_eq!(c.display(), "2+3=5");
    let tokens = c.tokens();
    let last = tokens.last().unwrap();
    assert!(matches!(last, Token::Result(_)));
    assert_eq!(last.to_string(), "5");
}

#[test]
fn percentage_relative_for_sum() {
    let mut c = Calculator::new();
    press(
        &mut c,
        &[
            digit(1),
            digit(0),
            digit(0),
            op(Operation::Sum),
            digit(1),
            digit(0),
            op(Operation::Percent),
            op(Operation::Equals),
        ],
    );
    assert_eq!(c.display(), "100+10%=110");
}

#[test]
fn percentage_absolute_for_multiply() {
    let mut c = Calculator::new();
    press(
        &mut c,
        &[
            digit(1),
            digit(0),
            digit(0),
            op(Operation::Multiply),
            digit(1),
            digit(0),
            op(Operation::Percent),
            op(Operation::Equals),
        ],
    );
    assert_eq!(c.display(), "100*10%=10");
}

#[test]
fn duplicate_operator_is_coalesced() {
    // The first press of a run sticks: the subtract press is ignored and
    // the pending operator stays the sum.
    let mut c = Calculator::new();
    press(
        &mut c,
        &[
            digit(5),
            op(Operation::Sum),
            op(Operation::Subtract),
            digit(2),
            op(Operation::Equals),
        ],
    );
    assert_eq!(c.display(), "5+2=7");
}

#[test]
fn operator_alone_is_pushed() {
    let mut c = Calculator::new();
    press(&mut c, &[op(Operation::Sum)]);
    assert_eq!(c.display(), "+");
}

#[test]
fn percent_requires_tail_number() {
    let mut c = Calculator::new();
    press(&mut c, &[digit(5), op(Operation::Sum), op(Operation::Percent)]);
    assert_eq!(c.display(), "5+");
}

#[test]
fn percent_applies_once() {
    let mut c = Calculator::new();
    press(&mut c, &[digit(5), op(Operation::Percent)]);
    assert_eq!(c.display(), "5%");
    press(&mut c, &[op(Operation::Percent)]);
    assert_eq!(c.display(), "5%");
}

#[test]
fn digit_after_percentage_opens_new_number() {
    let mut c = Calculator::new();
    press(&mut c, &[digit(5), op(Operation::Percent), digit(3)]);
    assert_eq!(c.display(), "5%3");
}

#[test]
fn divide_renders_division_sign() {
    let mut c = Calculator::new();
    press(&mut c, &[digit(8), op(Operation::Divide), digit(2), op(Operation::Equals)]);
    assert_eq!(c.display(), "8\u{00F7}2=4");
}

#[test]
fn division_by_zero_renders_infinity() {
    let mut c = Calculator::new();
    press(&mut c, &[digit(1), op(Operation::Divide), digit(0), op(Operation::Equals)]);
    assert_eq!(c.display(), "1\u{00F7}0=inf");
}

#[test]
fn decimal_evaluation() {
    let mut c = Calculator::new();
    press(
        &mut c,
        &[
            digit(1),
            op(Operation::Dot),
            digit(5),
            op(Operation::Sum),
            digit(2),
            op(Operation::Dot),
            digit(5),
            op(Operation::Equals),
        ],
    );
    assert_eq!(c.display(), "1.5+2.5=4");
}

#[test]
fn negative_operand_evaluates() {
    let mut c = Calculator::new();
    press(
        &mut c,
        &[
            digit(5),
            op(Operation::SignChange),
            op(Operation::Sum),
            digit(3),
            op(Operation::Equals),
        ],
    );
    assert_eq!(c.display(), "-5+3=-2");
}

#[test]
fn pending_operator_persists_after_result() {
    // The reduction pass walks the whole log: an earlier sum is still
    // pending when a digit typed after the result is evaluated.
    let mut c = Calculator::new();
    press(&mut c, &[digit(2), op(Operation::Sum), digit(3), op(Operation::Equals)]);
    press(&mut c, &[digit(4), op(Operation::Equals)]);
    assert_eq!(c.display(), "2+3=54=9");
}

#[test]
fn operator_after_result_is_pushed() {
    let mut c = Calculator::new();
    press(&mut c, &[digit(2), op(Operation::Sum), digit(3), op(Operation::Equals)]);
    press(&mut c, &[op(Operation::Multiply)]);
    assert_eq!(c.display(), "2+3=5*");
}

#[test]
fn operation_symbols() {
    assert_eq!(Operation::AC.to_str(), "AC");
    assert_eq!(Operation::SignChange.to_str(), "-");
    assert_eq!(Operation::Percent.to_str(), "%");
    assert_eq!(Operation::Divide.to_str(), "\u{00F7}");
    assert_eq!(Operation::Multiply.to_str(), "*");
    assert_eq!(Operation::Subtract.to_str(), "-");
    assert_eq!(Operation::Sum.to_str(), "+");
    assert_eq!(Operation::Equals.to_str(), "=");
    assert_eq!(Operation::Dot.to_str(), ".");
    assert_eq!(Operation::Divide.to_string(), "\u{00F7}");
}

#[test]
fn token_rendering() {
    let number = Token::Number(vec!['4', '2']);
    assert_eq!(number.to_string(), "42");
    let percentage = Token::Percentage(vec!['4', '2']);
    assert_eq!(percentage.to_string(), "42%");
    let operation = Token::Operation(Operation::Sum);
    assert_eq!(operation.to_string(), "+");
}

#[test]
fn equals_on_empty_log_yields_zero() {
    let mut c = Calculator::new();
    press(&mut c, &[op(Operation::Equals)]);
    assert_eq!(c.display(), "=0");
}

#[test]
fn percentage_relative_for_subtract() {
    let mut c = Calculator::new();
    press(
        &mut c,
        &[
            digit(1),
            digit(0),
            digit(0),
            op(Operation::Subtract),
            digit(1),
            digit(0),
            op(Operation::Percent),
            op(Operation::Equals),
        ],
    );
    assert_eq!(c.display(), "100-10%=90");
}

#[test]
fn percentage_absolute_for_divide() {
    let mut c = Calculator::new();
    press(
        &mut c,
        &[
            digit(1),
            digit(0),
            digit(0),
            op(Operation::Divide),
            digit(1),
            digit(0),
            op(Operation::Percent),
            op(Operation::Equals),
        ],
    );
    assert_eq!(c.display(), "100\u{00F7}10%=1000");
}

#[test]
fn evaluation_steps_shape() {
    let mut c = Calculator::new();
    press(&mut c, &[digit(2), op(Operation::Sum), digit(3)]);
    let steps = c.update(op(Operation::Equals)).unwrap();
    assert_eq!(steps.len(), 2);
    assert!(matches!(&steps[0], EvalStep::SetNumber(n) if n == "2"));
    assert!(matches!(&steps[1], EvalStep::ApplyNumber(Operation::Sum, n) if n == "3"));
    assert_eq!(fold_steps(&steps), 5.0);
}
