//! Tokens and the three-way outcome of a classification step.

use vstd::prelude::*;

verus! {

/// The closed set of lexical categories.
#[derive(Debug, Clone, Copy, PartialEq, Eq, Structural)]
pub enum TokenType {
    // single character tokens
    LeftParen,
    RightParen,
    LeftBrace,
    RightBrace,
    Comma,
    Dot,
    Minus,
    Plus,
    Semicolon,
    Slash,
    Star,
    // one or two character tokens
    Bang,
    BangEqual,
    Equal,
    EqualEqual,
    Greater,
    GreaterEqual,
    Less,
    LessEqual,
    // literals
    Identifier,
    String,
    Number,
    Comment,
    // keywords
    And,
    Class,
    Else,
    False,
    Fun,
    For,
    If,
    Nil,
    Or,
    Print,
    Return,
    Super,
    This,
    True,
    Var,
    While,
}

/// What one classification step produced: a value, a failure, or nothing.
///
/// `Skip` is an ordinary outcome (consumed whitespace), not a failure.
#[derive(Debug, Clone, Copy, PartialEq)]
pub enum ScanOptions<T, E> {
    /// A token was recognized.
    Token(T),
    /// The input at the cursor could not be classified.
    Error(E),
    /// Input was consumed and nothing is to be reported.
    Skip,
}

impl<T: View, E: View> View for ScanOptions<T, E> {
    type V = ScanOptions<T::V, E::V>;

    open spec fn view(&self) -> Self::V {
        match *self {
            ScanOptions::Token(t) => ScanOptions::Token(t@),
            ScanOptions::Error(e) => ScanOptions::Error(e@),
            ScanOptions::Skip => ScanOptions::Skip,
        }
    }
}

/// The mathematical value of a [`Token`].
pub struct TokenView {
    pub token_type: TokenType,
    pub lexeme: Seq<char>,
    pub line: int,
}

/// A classified lexeme with the line it was recognized on.
#[derive(Debug, Clone, PartialEq)]
pub struct Token {
    token_type: TokenType,
    lexeme: String,
    line: usize,
}

impl View for Token {
    type V = TokenView;

    closed spec fn view(&self) -> TokenView {
        TokenView { token_type: self.token_type, lexeme: self.lexeme@, line: self.line as int }
    }
}

/// The values of a list of tokens, in order.
pub open spec fn token_views(tokens: Seq<Token>) -> Seq<TokenView> {
    tokens.map_values(|t: Token| t@)
}

/// The values of a list of diagnostics, in order: of each its line and the
/// text of its message.
pub open spec fn diagnostic_views(diagnostics: Seq<(usize, String)>) -> Seq<(int, Seq<char>)> {
    diagnostics.map_values(|d: (usize, String)| (d.0 as int, d.1@))
}

impl Token {
    pub fn new(token_type: TokenType, lexeme: String, line: usize) -> (token: Self)
        ensures
            token@ == (TokenView { token_type, lexeme: lexeme@, line: line as int }),
    {
        Token { token_type, lexeme, line }
    }
}

} // verus!
