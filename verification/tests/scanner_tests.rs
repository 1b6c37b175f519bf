use rlox::scanner::Scanner;
use rlox::token_type::TokenType;

fn types_of(source: &str) -> Vec<TokenType> {
    let mut scanner = Scanner::new(source.to_string());
    scanner.scan_tokens().iter().map(|t| t.token_type).collect()
}

#[test]
fn simple_expression_tokens() {
    let mut scanner = Scanner::new("1 + 2;".to_string());
    let tokens = scanner.scan_tokens();
    let types: Vec<TokenType> = tokens.iter().map(|t| t.token_type).collect();
    assert_eq!(
        types,
        vec![
            TokenType::NUMBER,
            TokenType::PLUS,
            TokenType::NUMBER,
            TokenType::SEMICOLON,
            TokenType::EOF
        ]
    );
    assert_eq!(tokens[0].lexeme, "1");
    assert_eq!(tokens[0].literal, "1");
    assert_eq!(tokens[1].lexeme, "+");
    assert_eq!(tokens[1].literal, "Null");
    assert!(tokens.iter().all(|t| t.line == 1));
}

#[test]
fn last_token_is_always_eof() {
    for src in ["", "@#%", "print", "\"open", "1.2.3", "\n\n\n"] {
        let mut scanner = Scanner::new(src.to_string());
        let tokens = scanner.scan_tokens();
        assert!(!tokens.is_empty());
        assert_eq!(tokens.last().unwrap().token_type, TokenType::EOF);
        assert!(tokens.iter().all(|t| t.line >= 1));
    }
}

#[test]
fn two_character_operators() {
    assert_eq!(
        types_of("! != = == < <= > >="),
        vec![
            TokenType::BANG,
            TokenType::BANGEQUAL,
            TokenType::EQUAL,
            TokenType::EQUALEQUAL,
            TokenType::LESS,
            TokenType::LESSEQUAL,
            TokenType::GREATER,
            TokenType::GREATEREQUAL,
            TokenType::EOF
        ]
    );
}

#[test]
fn keywords_and_identifiers() {
    assert_eq!(
        types_of("var orchid or nilly nil"),
        vec![
            TokenType::VAR,
            TokenType::IDENTIFIER,
            TokenType::OR,
            TokenType::IDENTIFIER,
            TokenType::NIL,
            TokenType::EOF
        ]
    );
}

#[test]
fn number_rule_leaves_trailing_dot() {
    let mut scanner = Scanner::new("12.5 7. 0.25".to_string());
    let tokens = scanner.scan_tokens();
    let lexemes: Vec<&str> = tokens.iter().map(|t| t.lexeme.as_str()).collect();
    assert_eq!(lexemes, vec!["12.5", "7", ".", "0.25", ""]);
    assert_eq!(tokens[1].token_type, TokenType::NUMBER);
    assert_eq!(tokens[2].token_type, TokenType::DOT);
}

#[test]
fn string_literal_contents_and_lines() {
    let mut scanner = Scanner::new("\"a\nb\" x".to_string());
    let tokens = scanner.scan_tokens();
    assert_eq!(tokens[0].token_type, TokenType::STRING);
    assert_eq!(tokens[0].literal, "a\nb");
    assert_eq!(tokens[0].lexeme, "\"a\nb\"");
    assert_eq!(tokens[0].line, 2);
    assert_eq!(tokens[1].line, 2);
}

#[test]
fn comments_emit_nothing() {
    assert_eq!(
        types_of("1 // rest is skipped ;;;\n2"),
        vec![TokenType::NUMBER, TokenType::NUMBER, TokenType::EOF]
    );
}

#[test]
fn unterminated_string_reports_and_emits_no_token() {
    let mut scanner = Scanner::new("\"abc".to_string());
    let types: Vec<TokenType> = scanner.scan_tokens().iter().map(|t| t.token_type).collect();
    assert_eq!(types, vec![TokenType::EOF]);
    let diags = scanner.diagnostics();
    assert_eq!(diags.len(), 1);
    assert_eq!(diags[0].message, "Unterminated string");
    assert_eq!(diags[0].line, 1);
}

#[test]
fn unexpected_character_reports_and_continues() {
    let mut scanner = Scanner::new("@1".to_string());
    let types: Vec<TokenType> = scanner.scan_tokens().iter().map(|t| t.token_type).collect();
    assert_eq!(types, vec![TokenType::NUMBER, TokenType::EOF]);
    let diags = scanner.diagnostics();
    assert_eq!(diags.len(), 1);
    assert_eq!(diags[0].message, "Unexpected character");
}
