use rlox::expr::{Expr, Literal, LiteralRepresentations};
use rlox::interpreter::Interpreter;
use rlox::numbits::{is_nan_bits, num_eq_bits, num_le_bits, num_lt_bits, num_neg_bits};

fn lit(v: LiteralRepresentations) -> Expr {
    Expr::Literal { literal: v }
}

fn num(x: f64) -> LiteralRepresentations {
    LiteralRepresentations::CustomNumber { val: x.to_bits() }
}

fn samples() -> Vec<LiteralRepresentations> {
    vec![
        LiteralRepresentations::CustomNil,
        LiteralRepresentations::CustomBoolean { val: true },
        LiteralRepresentations::CustomBoolean { val: false },
        num(0.0),
        num(-0.0),
        num(1.5),
        num(-2.0),
        num(f64::NAN),
        num(f64::INFINITY),
        LiteralRepresentations::CustomString { val: "".to_string() },
        LiteralRepresentations::CustomString { val: "x".to_string() },
    ]
}

fn clone_lit(v: &LiteralRepresentations) -> LiteralRepresentations {
    v.clone()
}

#[test]
fn equality_is_symmetric() {
    let interp = Interpreter::new();
    for a in samples() {
        for b in samples() {
            let ab = interp.is_equal(lit(clone_lit(&a)), lit(clone_lit(&b)));
            let ba = interp.is_equal(lit(clone_lit(&b)), lit(clone_lit(&a)));
            assert_eq!(ab, ba);
        }
    }
}

#[test]
fn equality_is_reflexive_except_nan() {
    let interp = Interpreter::new();
    for a in samples() {
        let is_nan = matches!(
            a,
            LiteralRepresentations::CustomNumber { val } if is_nan_bits(val)
        );
        let self_eq = interp.is_equal(lit(clone_lit(&a)), lit(clone_lit(&a)));
        assert_eq!(self_eq, !is_nan);
    }
}

#[test]
fn truthiness_law_on_samples() {
    let interp = Interpreter::new();
    for v in samples() {
        let truthy = interp.is_truthy(Literal { literal: clone_lit(&v) });
        let eq_nil = interp.is_equal(lit(clone_lit(&v)), lit(LiteralRepresentations::CustomNil));
        let eq_false = interp.is_equal(
            lit(clone_lit(&v)),
            lit(LiteralRepresentations::CustomBoolean { val: false }),
        );
        assert_eq!(truthy, !eq_nil && !eq_false);
    }
}

#[test]
fn zeros_of_both_signs_are_equal() {
    assert!(num_eq_bits(0.0f64.to_bits(), (-0.0f64).to_bits()));
    assert!(!num_lt_bits(0.0f64.to_bits(), (-0.0f64).to_bits()));
    assert!(!num_lt_bits((-0.0f64).to_bits(), 0.0f64.to_bits()));
}

#[test]
fn bit_level_ordering_matches_doubles() {
    let values = [
        f64::NEG_INFINITY,
        -3.5,
        -0.0,
        0.0,
        0.25,
        2.0,
        1e300,
        f64::INFINITY,
        f64::NAN,
    ];
    for &a in &values {
        for &b in &values {
            assert_eq!(num_lt_bits(a.to_bits(), b.to_bits()), a < b, "{} < {}", a, b);
            assert_eq!(num_le_bits(a.to_bits(), b.to_bits()), a <= b, "{} <= {}", a, b);
            assert_eq!(num_eq_bits(a.to_bits(), b.to_bits()), a == b, "{} == {}", a, b);
        }
    }
}

#[test]
fn negation_flips_the_sign() {
    for &a in &[0.0f64, -0.0, 1.5, -2.25, f64::INFINITY] {
        assert_eq!(f64::from_bits(num_neg_bits(a.to_bits())), -a);
    }
    assert!(f64::from_bits(num_neg_bits(f64::NAN.to_bits())).is_nan());
}

#[test]
fn string_equality_is_by_contents() {
    let interp = Interpreter::new();
    let a = LiteralRepresentations::CustomString { val: "abc".to_string() };
    let b = LiteralRepresentations::CustomString { val: "abc".to_string() };
    let c = LiteralRepresentations::CustomString { val: "abd".to_string() };
    assert!(interp.is_equal(lit(clone_lit(&a)), lit(b)));
    assert!(!interp.is_equal(lit(a), lit(c)));
}

#[test]
fn non_literal_expressions_are_never_equal() {
    let interp = Interpreter::new();
    let v = Expr::Variable {
        name: rlox::token::Token::new(
            rlox::token_type::TokenType::IDENTIFIER,
            "a".to_string(),
            "Null".to_string(),
            1,
        ),
    };
    assert!(!interp.is_equal(v, lit(num(1.0))));
}
