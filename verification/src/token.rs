//! Tokens.
use vstd::prelude::*;
use crate::token_type::TokenType;

verus! {

/// A token: its kind, the slice of source text it was read from, and the
/// line it stands on.
#[derive(Debug, PartialEq)]
pub struct Token {
    pub token_type: TokenType,
    pub lexeme: String,
    pub line: usize,
}

/// What a token holds, as plain values.
pub struct TokenView {
    /// The kind's position, see [`TokenType::kind`].
    pub kind: nat,
    /// What a literal carries; empty for the other kinds.
    pub payload: Seq<char>,
    pub lexeme: Seq<char>,
    pub line: nat,
}

impl View for Token {
    type V = TokenView;

    open spec fn view(&self) -> TokenView {
        TokenView {
            kind: self.token_type.kind(),
            payload: self.token_type.payload(),
            lexeme: self.lexeme@,
            line: self.line as nat,
        }
    }
}

/// The views of a sequence of tokens.
pub open spec fn token_views(tokens: Seq<Token>) -> Seq<TokenView> {
    tokens.map_values(|t: Token| t@)
}

impl Clone for Token {
    fn clone(&self) -> (r: Self)
        ensures
            r == *self,
    {
        Token { token_type: self.token_type.clone(), lexeme: self.lexeme.clone(), line: self.line }
    }
}

} // verus!
