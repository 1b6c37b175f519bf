use rlox::environment::Environment;
use rlox::expr::LiteralRepresentations;
use rlox::token::Token;
use rlox::token_type::TokenType;

fn name_token(name: &str) -> Token {
    Token::new(
        TokenType::IDENTIFIER,
        name.to_string(),
        "Null".to_string(),
        1,
    )
}

#[test]
fn define_then_get() {
    let mut env = Environment::new();
    env.define(
        "a".to_string(),
        LiteralRepresentations::CustomNumber { val: 1.5f64.to_bits() },
    );
    match env.get(name_token("a")) {
        Ok(LiteralRepresentations::CustomNumber { val }) => {
            assert_eq!(val, 1.5f64.to_bits())
        }
        _ => panic!("the binding should be the stored number"),
    }
}

#[test]
fn redefining_replaces_the_binding() {
    let mut env = Environment::new();
    env.define("a".to_string(), LiteralRepresentations::CustomNil);
    env.define(
        "a".to_string(),
        LiteralRepresentations::CustomBoolean { val: true },
    );
    match env.get(name_token("a")) {
        Ok(LiteralRepresentations::CustomBoolean { val }) => assert!(val),
        _ => panic!("the binding should have been replaced"),
    }
}

#[test]
fn undefined_name_reports_with_the_lexeme() {
    let env = Environment::new();
    match env.get(name_token("missing")) {
        Err(e) => assert_eq!(e.reason, "Undefined variable 'missing'."),
        Ok(_) => panic!("nothing was defined"),
    }
}

#[test]
fn bindings_are_independent() {
    let mut env = Environment::new();
    env.define(
        "a".to_string(),
        LiteralRepresentations::CustomString { val: "one".to_string() },
    );
    env.define(
        "b".to_string(),
        LiteralRepresentations::CustomString { val: "two".to_string() },
    );
    match env.get(name_token("a")) {
        Ok(LiteralRepresentations::CustomString { val }) => assert_eq!(val, "one"),
        _ => panic!("a should still be bound to one"),
    }
}

#[test]
fn token_description() {
    let t = Token::new(TokenType::NUMBER, "12".to_string(), "12".to_string(), 3);
    assert_eq!(
        t.to_string_impl(),
        "type: NUMBER, lexeme: 12, literal: 12"
    );
    assert_eq!(t.token_type.name(), "NUMBER");
    assert_eq!(t.line, 3);
}
