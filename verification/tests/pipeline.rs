use rlox::interpreter::Interpreter;
use rlox::lox::{Lox, RunOutcome};
use rlox::oracle::{ArithOp, NumOracle, NumQuery};

fn answer(q: NumQuery, oracle: &mut NumOracle) {
    match q {
        NumQuery::ParseNum { text } => {
            let v: f64 = text.parse().unwrap();
            oracle.add_parse(text, v.to_bits());
        }
        NumQuery::Arith { op, left, right } => {
            let a = f64::from_bits(left);
            let b = f64::from_bits(right);
            let r = match op {
                ArithOp::Add => a + b,
                ArithOp::Sub => a - b,
                ArithOp::Mul => a * b,
                ArithOp::Div => a / b,
            };
            oracle.add_arith(op, left, right, r.to_bits());
        }
        NumQuery::FormatNum { bits } => {
            oracle.add_format(bits, format!("{}", f64::from_bits(bits)));
        }
    }
}

fn run_source(source: &str) -> (Vec<String>, bool, bool) {
    let mut oracle = NumOracle::new();
    let mut lox = Lox::new();
    let mut interp = Interpreter::new();
    let src = source.to_string();
    loop {
        match lox.run(&mut interp, &src, &oracle) {
            RunOutcome::Need(q) => answer(q, &mut oracle),
            RunOutcome::Finished => break,
        }
    }
    (lox.take_output(), lox.had_error, lox.had_runtime_error)
}

#[test]
fn precedence_of_multiplication() {
    let (out, err, rte) = run_source("print 1 + 2 * 3;");
    assert_eq!(out, vec!["7".to_string()]);
    assert!(!err && !rte);
}

#[test]
fn string_concatenation() {
    let (out, err, rte) = run_source("print \"foo\" + \"bar\";");
    assert_eq!(out, vec!["foobar".to_string()]);
    assert!(!err && !rte);
}

#[test]
fn bang_nil_is_true() {
    let (out, _, _) = run_source("print !nil;");
    assert_eq!(out, vec!["true".to_string()]);
}

#[test]
fn zero_is_truthy() {
    let (out, _, _) = run_source("print !!0;");
    assert_eq!(out, vec!["true".to_string()]);
}

#[test]
fn variables_add() {
    let (out, err, rte) = run_source("var a = 1; var b = 2; print a + b;");
    assert_eq!(out, vec!["3".to_string()]);
    assert!(!err && !rte);
}

#[test]
fn number_never_equals_string() {
    let (out, _, _) = run_source("print 1 == \"1\";");
    assert_eq!(out, vec!["false".to_string()]);
}

#[test]
fn negating_a_string_is_a_runtime_fault() {
    let (out, err, rte) = run_source("print -\"x\";");
    assert!(!err);
    assert!(rte);
    assert_eq!(out, vec!["Operand must be a number.\n[line 1]".to_string()]);
}

#[test]
fn undefined_variable_is_a_runtime_fault() {
    let (out, err, rte) = run_source("print a;");
    assert!(!err);
    assert!(rte);
    assert_eq!(out, vec!["Undefined variable 'a'.\n[line 1]".to_string()]);
}

#[test]
fn dangling_operator_is_a_parse_fault() {
    let (out, err, rte) = run_source("1 +");
    assert!(err);
    assert!(!rte);
    assert!(!out.is_empty());
    assert!(out[0].starts_with("[line 1] Error at end:"));
}

#[test]
fn unexpected_character_is_reported() {
    let (out, err, _) = run_source("print 1 @ 2;");
    assert!(err);
    assert!(out.iter().any(|l| l == "[line 1] Error: Unexpected character"));
}

#[test]
fn unterminated_string_is_reported() {
    let (out, err, _) = run_source("print \"abc");
    assert!(err);
    assert!(out.iter().any(|l| l == "[line 1] Error: Unterminated string"));
}

#[test]
fn faults_refuse_interpretation() {
    let (out, err, rte) = run_source("print 1 +; print 2;");
    assert!(err);
    assert!(!rte);
    assert!(out.iter().all(|l| l.starts_with("[line ")));
}

#[test]
fn runtime_fault_keeps_earlier_output() {
    let (out, _, rte) = run_source("print 1; print -\"x\"; print 2;");
    assert!(rte);
    assert_eq!(
        out,
        vec![
            "1".to_string(),
            "Operand must be a number.\n[line 1]".to_string()
        ]
    );
}

#[test]
fn division_and_comparison() {
    let (out, _, _) = run_source("print 10 / 4; print 1 < 2; print 2 <= 1;");
    assert_eq!(
        out,
        vec!["2.5".to_string(), "true".to_string(), "false".to_string()]
    );
}

#[test]
fn grouping_overrides_precedence() {
    let (out, _, _) = run_source("print (1 + 2) * 3;");
    assert_eq!(out, vec!["9".to_string()]);
}

#[test]
fn repl_environment_persists() {
    let mut oracle = NumOracle::new();
    let mut lox = Lox::new();
    let mut interp = Interpreter::new();
    for src in ["var a = 1;", "print a;"] {
        let src = src.to_string();
        loop {
            match lox.run(&mut interp, &src, &oracle) {
                RunOutcome::Need(q) => answer(q, &mut oracle),
                RunOutcome::Finished => break,
            }
        }
        lox.had_error = false;
    }
    assert_eq!(lox.take_output(), vec!["1".to_string()]);
}

#[test]
fn var_without_initializer_is_nil() {
    let (out, err, rte) = run_source("var a; print a;");
    assert_eq!(out, vec!["nil".to_string()]);
    assert!(!err && !rte);
}

#[test]
fn string_line_counting() {
    let (out, _, rte) = run_source("var s = \"a\nb\";\nprint -s;");
    assert!(rte);
    assert_eq!(out, vec!["Operand must be a number.\n[line 3]".to_string()]);
}

#[test]
fn nan_is_not_equal_to_itself() {
    let (out, _, _) = run_source("print (0 / 0) == (0 / 0);");
    assert_eq!(out, vec!["false".to_string()]);
}
