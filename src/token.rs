//! Token categories and the token record produced by the scanner.
use vstd::prelude::*;

verus! {

/// The closed set of lexical categories.
#[derive(Clone, Copy, Debug, PartialEq, Eq, Structural)]
pub enum TokenType {
    // Single-character tokens.
    LeftParen,
    RightParen,
    LeftBrace,
    RightBrace,
    Comma,
    Dot,
    Minus,
    Plus,
    Semicolon,
    Slash,
    Star,
    // One or two character tokens.
    Bang,
    BangEqual,
    Equal,
    EqualEqual,
    Greater,
    GreaterEqual,
    Less,
    LessEqual,
    // Literals.
    Identifier,
    String,
    Number,
    // Keywords.
    And,
    Class,
    Else,
    False,
    Fun,
    For,
    If,
    Nil,
    Or,
    Print,
    Return,
    Super,
    This,
    True,
    Var,
    While,
    // End of input.
    Eof,
}

/// The decoded value that a token carries.
#[derive(Debug)]
pub enum TokenLiteral {
    /// Punctuation, operators and the end marker carry nothing.
    Absent,
    /// A number literal, kept as its exact source text.
    Number(String),
    /// A string literal: the text strictly between the quotes.
    String(String),
    /// An identifier or keyword: the matched text.
    Name(String),
}

/// The mathematical value of a [`TokenLiteral`].
pub enum LiteralView {
    Absent,
    Number(Seq<char>),
    String(Seq<char>),
    Name(Seq<char>),
}

impl View for TokenLiteral {
    type V = LiteralView;

    open spec fn view(&self) -> LiteralView {
        match self {
            TokenLiteral::Absent => LiteralView::Absent,
            TokenLiteral::Number(s) => LiteralView::Number(s@),
            TokenLiteral::String(s) => LiteralView::String(s@),
            TokenLiteral::Name(s) => LiteralView::Name(s@),
        }
    }
}

/// One classified lexeme with its literal value and the line it starts on.
#[derive(Debug)]
pub struct Token {
    pub token_type: TokenType,
    pub lexeme: String,
    pub literal: TokenLiteral,
    pub line: usize,
}

/// The mathematical value of a [`Token`].
pub struct TokenView {
    pub token_type: TokenType,
    pub lexeme: Seq<char>,
    pub literal: LiteralView,
    pub line: nat,
}

impl View for Token {
    type V = TokenView;

    open spec fn view(&self) -> TokenView {
        TokenView {
            token_type: self.token_type,
            lexeme: self.lexeme@,
            literal: self.literal@,
            line: self.line as nat,
        }
    }
}

/// The views of a sequence of tokens, in order.
pub open spec fn views(ts: Seq<Token>) -> Seq<TokenView> {
    ts.map_values(|t: Token| t@)
}

impl Token {
    pub fn new(token_type: TokenType, lexeme: String, literal: TokenLiteral, line: usize) -> (r:
        Token)
        ensures
            r.token_type == token_type,
            r.lexeme@ == lexeme@,
            r.literal@ == literal@,
            r.line == line,
    {
        Token { token_type, lexeme, literal, line }
    }
}

} // verus!
