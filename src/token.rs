use vstd::prelude::*;

verus! {

/// Why a stretch of source text could not become a proper token.
#[derive(Clone, Copy, Debug, PartialEq, Eq, Structural)]
pub enum LexError {
    /// A numeral that does not read as a 64-bit float (`1.2.3`).
    InvalidFloatLiteral,
    /// A string literal with no closing quote before the end of input.
    UnterminatedString,
    /// A character that starts no token.
    UnrecognizedCharacter,
}

impl LexError {
    /// The message carried by the error token.
    pub fn message(&self) -> (r: &'static str)
        ensures
            r@ == self.message_spec(),
    {
        match self {
            LexError::InvalidFloatLiteral => "Invalid Float literal",
            LexError::UnterminatedString => "Unterminated String",
            LexError::UnrecognizedCharacter => "Unrecognized character",
        }
    }

    pub open spec fn message_spec(&self) -> Seq<char> {
        match self {
            LexError::InvalidFloatLiteral => "Invalid Float literal"@,
            LexError::UnterminatedString => "Unterminated String"@,
            LexError::UnrecognizedCharacter => "Unrecognized character"@,
        }
    }
}

/// The kind of a token.
///
/// A `Number` token carries no value of its own: its value is its lexeme read
/// as a 64-bit float, which the scanner has already checked to be readable.
#[derive(Clone, Copy, Debug, PartialEq, Eq, Structural)]
pub enum TokenType {
    // one character
    Bang,
    Carrot,
    Colon,
    Comma,
    Dot,
    Equal,
    Greater,
    LeftBrace,
    LeftBracket,
    LeftParen,
    Less,
    Minus,
    Percent,
    Plus,
    RightBrace,
    RightBracket,
    RightParen,
    Star,
    SemiColon,
    Slash,
    // two characters
    LessEq,
    GreaterEq,
    DoubleEq,
    BangEq,
    // literals
    Identifier,
    Number,
    CroxStr,
    // keywords
    And,
    Class,
    Else,
    False,
    For,
    Fn,
    If,
    Let,
    Null,
    Or,
    Return,
    Super,
    This,
    True,
    While,
    Eof,
    Error(LexError),
}

/// What a token is, as a mathematical value: its kind, its lexeme and its line.
pub type TokenModel = (TokenType, Seq<char>, int);

/// One token: its kind, the exact source text it was read from, and the line
/// it was found on (counted from 0).
#[derive(Clone, Debug, PartialEq)]
pub struct Token {
    ty: TokenType,
    lexeme: String,
    line: usize,
}

impl View for Token {
    type V = TokenModel;

    closed spec fn view(&self) -> TokenModel {
        (self.ty, self.lexeme@, self.line as int)
    }
}

impl Token {
    pub fn new(ty: TokenType, lexeme: &str, line: usize) -> (r: Token)
        ensures
            r@ == (ty, lexeme@, line as int),
    {
        Token { ty, lexeme: lexeme.to_owned(), line }
    }

    pub(crate) fn from_string(ty: TokenType, lexeme: String, line: usize) -> (r: Token)
        ensures
            r@ == (ty, lexeme@, line as int),
    {
        Token { ty, lexeme, line }
    }

    pub fn ty(&self) -> (r: TokenType)
        ensures
            r == self@.0,
    {
        self.ty
    }

    pub fn lexeme(&self) -> (r: &str)
        ensures
            r@ == self@.1,
    {
        self.lexeme.as_str()
    }

    pub fn line(&self) -> (r: usize)
        ensures
            r as int == self@.2,
    {
        self.line
    }
}

} // verus!
