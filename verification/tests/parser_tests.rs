use rlox::expr::{Expr, LiteralRepresentations};
use rlox::oracle::NumOracle;
use rlox::parser::Parser;
use rlox::scanner::Scanner;
use rlox::stmt::Stmt;
use rlox::token_type::TokenType;

fn parse_program(source: &str) -> (Vec<Stmt>, usize) {
    let mut oracle = NumOracle::new();
    let mut scanner = Scanner::new(source.to_string());
    let tokens = scanner.scan_tokens().clone();
    for t in tokens.iter() {
        if t.token_type == TokenType::NUMBER {
            let v: f64 = t.literal.parse().unwrap();
            oracle.add_parse(t.literal.clone(), v.to_bits());
        }
    }
    let mut parser = Parser::new(tokens);
    let stmts = parser.parse_stmts(&oracle);
    let n_diags = parser.diagnostics().len();
    (stmts, n_diags)
}

fn expression_of(stmt: &Stmt) -> &Expr {
    match stmt {
        Stmt::Expression(s) => &s.expression,
        Stmt::Print(s) => &s.print_expression,
        Stmt::Var(s) => s.initializer.as_ref().unwrap(),
    }
}

#[test]
fn subtraction_is_left_associative() {
    let (stmts, n_diags) = parse_program("a - b - c;");
    assert_eq!(n_diags, 0);
    assert_eq!(stmts.len(), 1);
    match expression_of(&stmts[0]) {
        Expr::Binary {
            left,
            operator,
            right,
        } => {
            assert_eq!(operator.token_type, TokenType::MINUS);
            match right.as_ref() {
                Expr::Variable { name } => assert_eq!(name.lexeme, "c"),
                other => panic!("right child should be the variable c: {:?}", other),
            }
            match left.as_ref() {
                Expr::Binary {
                    left: ll,
                    operator: lop,
                    right: lr,
                } => {
                    assert_eq!(lop.token_type, TokenType::MINUS);
                    match (ll.as_ref(), lr.as_ref()) {
                        (Expr::Variable { name: a }, Expr::Variable { name: b }) => {
                            assert_eq!(a.lexeme, "a");
                            assert_eq!(b.lexeme, "b");
                        }
                        other => panic!("inner children should be a and b: {:?}", other),
                    }
                }
                other => panic!("left child should be the a - b subtree: {:?}", other),
            }
        }
        other => panic!("root should be the second minus: {:?}", other),
    }
}

#[test]
fn multiplication_binds_tighter_than_addition() {
    let (stmts, _) = parse_program("1 + 2 * 3;");
    match expression_of(&stmts[0]) {
        Expr::Binary { left, operator, right } => {
            assert_eq!(operator.token_type, TokenType::PLUS);
            assert!(matches!(left.as_ref(), Expr::Literal { .. }));
            match right.as_ref() {
                Expr::Binary { operator, .. } => {
                    assert_eq!(operator.token_type, TokenType::STAR)
                }
                other => panic!("right child should be the product: {:?}", other),
            }
        }
        other => panic!("root should be the plus: {:?}", other),
    }
}

#[test]
fn number_literal_carries_double_bits() {
    let (stmts, _) = parse_program("2.5;");
    match expression_of(&stmts[0]) {
        Expr::Literal {
            literal: LiteralRepresentations::CustomNumber { val },
        } => assert_eq!(*val, 2.5f64.to_bits()),
        other => panic!("should be a number literal: {:?}", other),
    }
}

#[test]
fn grouping_and_unary() {
    let (stmts, n_diags) = parse_program("-(1);");
    assert_eq!(n_diags, 0);
    match expression_of(&stmts[0]) {
        Expr::Unary { operator, right } => {
            assert_eq!(operator.token_type, TokenType::MINUS);
            assert!(matches!(right.as_ref(), Expr::Grouping { .. }));
        }
        other => panic!("should be a unary node: {:?}", other),
    }
}

#[test]
fn var_declaration_forms() {
    let (stmts, n_diags) = parse_program("var x = 5; var y;");
    assert_eq!(n_diags, 0);
    assert_eq!(stmts.len(), 2);
    match &stmts[0] {
        Stmt::Var(v) => {
            assert_eq!(v.name.lexeme, "x");
            assert!(v.initializer.is_some());
        }
        other => panic!("should be a declaration: {:?}", other),
    }
    match &stmts[1] {
        Stmt::Var(v) => {
            assert_eq!(v.name.lexeme, "y");
            assert!(v.initializer.is_none());
        }
        other => panic!("should be a declaration: {:?}", other),
    }
}

#[test]
fn missing_close_paren_is_reported() {
    let (stmts, n_diags) = parse_program("(1;");
    assert!(n_diags >= 1);
    assert_eq!(stmts.len(), 1);
}

#[test]
fn unexpected_token_yields_fail_scenario() {
    let (stmts, n_diags) = parse_program(";");
    assert!(n_diags >= 1);
    match expression_of(&stmts[0]) {
        Expr::FailScenario { reason } => {
            assert_eq!(reason, "Reached end, expecting an expression")
        }
        other => panic!("should be a fail scenario: {:?}", other),
    }
}

#[test]
fn recovery_resumes_at_next_statement() {
    let (stmts, n_diags) = parse_program(") print 2;");
    assert!(n_diags >= 1);
    assert_eq!(stmts.len(), 2);
    assert!(matches!(&stmts[1], Stmt::Print(_)));
}
