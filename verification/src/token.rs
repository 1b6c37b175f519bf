//! Lexical tokens: a kind tag, the exact source lexeme, a textual literal
//! payload, and the 1-based source line.

use vstd::prelude::*;
use vstd::string::StringExecFns;
use crate::token_type::{spec_type_name, TokenType};

verus! {

/// One lexical token. `lexeme` is the exact substring of the source that the
/// token covers; `literal` is `"Null"` for tokens that carry no payload, the
/// raw matched text for a number, and the unescaped contents for a string.
#[derive(Debug)]
pub struct Token {
    pub token_type: TokenType,
    pub lexeme: String,
    pub literal: String,
    pub line: u32,
}

/// The mathematical image of a [`Token`]: the same fields with both strings
/// read as character sequences.
pub ghost struct TokenV {
    pub token_type: TokenType,
    pub lexeme: Seq<char>,
    pub literal: Seq<char>,
    pub line: u32,
}

impl View for Token {
    type V = TokenV;

    open spec fn view(&self) -> TokenV {
        TokenV {
            token_type: self.token_type,
            lexeme: self.lexeme@,
            literal: self.literal@,
            line: self.line,
        }
    }
}

impl DeepView for Token {
    type V = TokenV;

    open spec fn deep_view(&self) -> TokenV {
        self.view()
    }
}

impl Clone for Token {
    fn clone(&self) -> (r: Self)
        ensures
            r == *self,
    {
        Token {
            token_type: self.token_type,
            lexeme: self.lexeme.clone(),
            literal: self.literal.clone(),
            line: self.line,
        }
    }
}

impl Token {
    pub fn new(token_type: TokenType, lexeme: String, literal: String, line: u32) -> (r: Self)
        ensures
            r@ == (TokenV { token_type, lexeme: lexeme@, literal: literal@, line }),
    {
        Self { token_type, lexeme, literal, line }
    }

    /// A one-line description of the token.
    pub fn to_string_impl(&self) -> (r: String)
        ensures
            r@ == "type: "@ + spec_type_name(self.token_type) + ", lexeme: "@ + self.lexeme@
                + ", literal: "@ + self.literal@,
    {
        let mut s = String::from_str("type: ");
        s.append(self.token_type.name());
        s.append(", lexeme: ");
        s.append(self.lexeme.as_str());
        s.append(", literal: ");
        s.append(self.literal.as_str());
        s
    }
}

} // verus!
