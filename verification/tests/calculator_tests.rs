use paramcp::tools::calculator::{compile, tokenize, CalcError, CalculatorStep, CalculatorTool, Op, Program, Token};
use paramcp::json::JsonValue;

/// Runs a compiled program on floating-point numbers, in order.
fn run(program: &Program) -> Result<f64, CalcError> {
    let mut stack: Vec<f64> = Vec::new();
    for op in &program.ops {
        match op {
            Op::Push(lit) => stack.push(lit.parse::<f64>().expect("literal checked by the tokenizer")),
            Op::Neg => {
                let a = stack.pop().unwrap();
                stack.push(-a);
            }
            Op::Add | Op::Sub | Op::Mul | Op::Div => {
                let b = stack.pop().unwrap();
                let a = stack.pop().unwrap();
                let v = match op {
                    Op::Add => a + b,
                    Op::Sub => a - b,
                    Op::Mul => a * b,
                    _ => {
                        if b == 0.0 {
                            return Err(CalcError::DivisionByZero);
                        }
                        a / b
                    }
                };
                stack.push(v);
            }
        }
    }
    if let Some(e) = &program.error {
        return Err(e.clone());
    }
    assert_eq!(stack.len(), 1);
    Ok(stack[0])
}

fn evaluate(expr: &str) -> Result<f64, CalcError> {
    run(&compile(expr))
}

#[test]
fn test_calculator_evaluate() {
    assert_eq!(evaluate("2 + 3").unwrap(), 5.0);
    assert_eq!(evaluate("2 + 3 * 4").unwrap(), 14.0);
    assert_eq!(evaluate("(2 + 3) * 4").unwrap(), 20.0);
    assert_eq!(evaluate("10 / 2").unwrap(), 5.0);
    assert_eq!(evaluate("-5 + 3").unwrap(), -2.0);
    assert!(evaluate("1 / 0").is_err());
    assert!(evaluate("2 + (3").is_err());
}

#[test]
fn tokenize_splits_numbers_operators_and_parentheses() {
    let t = tokenize(" 12.5*(3-.5)\n").unwrap();
    assert_eq!(
        t,
        vec![
            Token::Number("12.5".to_string()),
            Token::Multiply,
            Token::LParen,
            Token::Number("3".to_string()),
            Token::Minus,
            Token::Number(".5".to_string()),
            Token::RParen,
        ]
    );
}

#[test]
fn tokenize_rejects_bad_numbers_and_characters() {
    assert_eq!(tokenize("1.2.3"), Err(CalcError::InvalidNumber("1.2.3".to_string())));
    assert_eq!(tokenize("."), Err(CalcError::InvalidNumber(".".to_string())));
    assert_eq!(tokenize("2 ^ 3"), Err(CalcError::UnexpectedCharacter('^')));
    assert_eq!(CalcError::UnexpectedCharacter('^').message(), "Unexpected character: '^'");
    assert_eq!(CalcError::InvalidNumber("1.2.3".to_string()).message(), "Invalid number: 1.2.3");
}

#[test]
fn compile_gives_postfix_order_with_precedence() {
    let p = compile("1 - 2 - 3 * 4");
    assert_eq!(p.error, None);
    assert_eq!(
        p.ops,
        vec![
            Op::Push("1".to_string()),
            Op::Push("2".to_string()),
            Op::Sub,
            Op::Push("3".to_string()),
            Op::Push("4".to_string()),
            Op::Mul,
            Op::Sub,
        ]
    );
}

#[test]
fn compile_reports_each_syntax_error() {
    assert_eq!(compile("").error, Some(CalcError::EmptyExpression));
    assert_eq!(compile("   ").error, Some(CalcError::EmptyExpression));
    assert_eq!(compile("2 +").error, Some(CalcError::UnexpectedEnd));
    assert_eq!(compile("(2").error, Some(CalcError::UnmatchedParen));
    assert_eq!(compile("(2 3)").error, Some(CalcError::ExpectedRParen));
    assert_eq!(compile("* 2").error, Some(CalcError::UnexpectedToken(Token::Multiply)));
    assert_eq!(compile("2 3").error, Some(CalcError::ExtraTokens));
    assert_eq!(CalcError::UnexpectedToken(Token::RParen).message(), "Unexpected token: RParen");
    assert_eq!(CalcError::ExtraTokens.message(), "Extra tokens at end of expression");
}

#[test]
fn division_by_zero_comes_before_a_later_syntax_error() {
    let p = compile("1 / 0 + (");
    assert_eq!(p.error, Some(CalcError::UnexpectedEnd));
    assert_eq!(run(&p), Err(CalcError::DivisionByZero));
    assert_eq!(CalcError::DivisionByZero.message(), "Division by zero");
}

#[test]
fn unary_minus_nests() {
    assert_eq!(evaluate("--3").unwrap(), 3.0);
    assert_eq!(evaluate("-(2 * -3)").unwrap(), 6.0);
}

#[test]
fn compiled_programs_never_underflow() {
    for expr in ["1+", "(1*(2-", "-", "((", "3 * (4 / 2) - -1", ")", "1 2 +"] {
        let p = compile(expr);
        let mut depth: i64 = 0;
        for op in &p.ops {
            match op {
                Op::Push(_) => depth += 1,
                Op::Neg => assert!(depth >= 1),
                _ => {
                    assert!(depth >= 2);
                    depth -= 1;
                }
            }
        }
        if p.error.is_none() {
            assert_eq!(depth, 1);
        }
    }
}

#[test]
fn calculator_tool_reads_expr_argument() {
    let tool = CalculatorTool::new();
    match tool.prepare(None) {
        CalculatorStep::Done(r) => {
            assert!(r.is_error);
            assert_eq!(r.content.len(), 1);
            let paramcp::protocol::ToolCallContent::Text(t) = &r.content[0];
            assert_eq!(t.text, "Error: Missing required argument 'expr'");
        }
        _ => panic!("expected an immediate answer"),
    }
    let args = JsonValue::Object(vec![("expr".to_string(), JsonValue::String("6 / 3".to_string()))]);
    match tool.prepare(Some(&args)) {
        CalculatorStep::Evaluate(p) => assert_eq!(run(&p).unwrap(), 2.0),
        _ => panic!("expected a program"),
    }
    let failed = CalculatorTool::finish(Err(CalcError::DivisionByZero));
    let paramcp::protocol::ToolCallContent::Text(t) = &failed.content[0];
    assert_eq!(t.text, "Error: Division by zero");
    assert!(failed.is_error);
}

#[test]
fn running_a_program_evaluates_left_to_right() {
    assert_eq!(evaluate("8 - 3 - 2").unwrap(), 3.0);
    assert_eq!(evaluate("8 / 4 / 2").unwrap(), 1.0);
    assert_eq!(evaluate("-(2 + 3) * 2").unwrap(), -10.0);
    assert_eq!(evaluate("2 * (3 + 4) - 10 / 5").unwrap(), 12.0);
    assert_eq!(evaluate("1 + 2 / (3 - 3)"), Err(CalcError::DivisionByZero));
    assert_eq!(evaluate("1 + 2 3"), Err(CalcError::ExtraTokens));
}
