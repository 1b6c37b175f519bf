//! The closed set of lexical token kinds of the language.

use vstd::prelude::*;

verus! {

/// Kind tag of a token: single-character punctuation, one- or two-character
/// operators, literals, reserved words, and the end-of-input sentinel.
#[derive(Debug, PartialEq, Eq, Structural, Clone, Copy)]
pub enum TokenType {
    // Single-character tokens.
    LEFTPAREN,
    RIGHTPAREN,
    LEFTBRACE,
    RIGHTBRACE,
    COMMA,
    DOT,
    MINUS,
    PLUS,
    SEMICOLON,
    SLASH,
    STAR,
    // One or two character tokens.
    BANG,
    BANGEQUAL,
    EQUAL,
    EQUALEQUAL,
    GREATER,
    GREATEREQUAL,
    LESS,
    LESSEQUAL,
    // Literals.
    IDENTIFIER,
    STRING,
    NUMBER,
    // Keywords.
    AND,
    CLASS,
    ELSE,
    FALSE,
    FUN,
    FOR,
    IF,
    NIL,
    OR,
    PRINT,
    RETURN,
    SUPER,
    THIS,
    TRUE,
    VAR,
    WHILE,
    // Sentinel: always the last token of a scan.
    EOF,
}

/// The printed name of each token kind, as a sequence of characters.
pub open spec fn spec_type_name(t: TokenType) -> Seq<char> {
    match t {
        TokenType::LEFTPAREN => "LEFTPAREN"@,
        TokenType::RIGHTPAREN => "RIGHTPAREN"@,
        TokenType::LEFTBRACE => "LEFTBRACE"@,
        TokenType::RIGHTBRACE => "RIGHTBRACE"@,
        TokenType::COMMA => "COMMA"@,
        TokenType::DOT => "DOT"@,
        TokenType::MINUS => "MINUS"@,
        TokenType::PLUS => "PLUS"@,
        TokenType::SEMICOLON => "SEMICOLON"@,
        TokenType::SLASH => "SLASH"@,
        TokenType::STAR => "STAR"@,
        TokenType::BANG => "BANG"@,
        TokenType::BANGEQUAL => "BANGEQUAL"@,
        TokenType::EQUAL => "EQUAL"@,
        TokenType::EQUALEQUAL => "EQUALEQUAL"@,
        TokenType::GREATER => "GREATER"@,
        TokenType::GREATEREQUAL => "GREATEREQUAL"@,
        TokenType::LESS => "LESS"@,
        TokenType::LESSEQUAL => "LESSEQUAL"@,
        TokenType::IDENTIFIER => "IDENTIFIER"@,
        TokenType::STRING => "STRING"@,
        TokenType::NUMBER => "NUMBER"@,
        TokenType::AND => "AND"@,
        TokenType::CLASS => "CLASS"@,
        TokenType::ELSE => "ELSE"@,
        TokenType::FALSE => "FALSE"@,
        TokenType::FUN => "FUN"@,
        TokenType::FOR => "FOR"@,
        TokenType::IF => "IF"@,
        TokenType::NIL => "NIL"@,
        TokenType::OR => "OR"@,
        TokenType::PRINT => "PRINT"@,
        TokenType::RETURN => "RETURN"@,
        TokenType::SUPER => "SUPER"@,
        TokenType::THIS => "THIS"@,
        TokenType::TRUE => "TRUE"@,
        TokenType::VAR => "VAR"@,
        TokenType::WHILE => "WHILE"@,
        TokenType::EOF => "EOF"@,
    }
}

impl TokenType {
    /// The printed name of this token kind.
    pub fn name(&self) -> (r: &'static str)
        ensures
            r@ == spec_type_name(*self),
    {
        match *self {
            TokenType::LEFTPAREN => "LEFTPAREN",
            TokenType::RIGHTPAREN => "RIGHTPAREN",
            TokenType::LEFTBRACE => "LEFTBRACE",
            TokenType::RIGHTBRACE => "RIGHTBRACE",
            TokenType::COMMA => "COMMA",
            TokenType::DOT => "DOT",
            TokenType::MINUS => "MINUS",
            TokenType::PLUS => "PLUS",
            TokenType::SEMICOLON => "SEMICOLON",
            TokenType::SLASH => "SLASH",
            TokenType::STAR => "STAR",
            TokenType::BANG => "BANG",
            TokenType::BANGEQUAL => "BANGEQUAL",
            TokenType::EQUAL => "EQUAL",
            TokenType::EQUALEQUAL => "EQUALEQUAL",
            TokenType::GREATER => "GREATER",
            TokenType::GREATEREQUAL => "GREATEREQUAL",
            TokenType::LESS => "LESS",
            TokenType::LESSEQUAL => "LESSEQUAL",
            TokenType::IDENTIFIER => "IDENTIFIER",
            TokenType::STRING => "STRING",
            TokenType::NUMBER => "NUMBER",
            TokenType::AND => "AND",
            TokenType::CLASS => "CLASS",
            TokenType::ELSE => "ELSE",
            TokenType::FALSE => "FALSE",
            TokenType::FUN => "FUN",
            TokenType::FOR => "FOR",
            TokenType::IF => "IF",
            TokenType::NIL => "NIL",
            TokenType::OR => "OR",
            TokenType::PRINT => "PRINT",
            TokenType::RETURN => "RETURN",
            TokenType::SUPER => "SUPER",
            TokenType::THIS => "THIS",
            TokenType::TRUE => "TRUE",
            TokenType::VAR => "VAR",
            TokenType::WHILE => "WHILE",
            TokenType::EOF => "EOF",
        }
    }
}

} // verus!
