use vstd::prelude::*;

verus! {

/// The lexical categories of the language.
#[derive(Debug, Copy, Clone, PartialEq, Eq, Structural)]
pub enum TokenType {
    // Single-character tokens.
    LeftParen,
    RightParen,
    LeftBrace,
    RightBrace,
    Comma,
    Dot,
    Minus,
    Plus,
    Semicolon,
    Slash,
    Star,
    // One or two character tokens.
    Bang,
    BangEqual,
    Equal,
    EqualEqual,
    Greater,
    GreaterEqual,
    Less,
    LessEqual,
    // Literals.
    IDENTIFIER,
    STRING,
    NUMBER,
    // Keywords.
    AND,
    CLASS,
    ELSE,
    FALSE,
    FUN,
    FOR,
    IF,
    NIL,
    OR,
    PRINT,
    RETURN,
    SUPER,
    THIS,
    TRUE,
    VAR,
    WHILE,
    EOF,
}

/// A constant written in the source: the decoded payload of a literal token,
/// or the value of a literal node of the tree.
///
/// A number keeps its decimal text exactly as written; the host's arithmetic
/// decodes it when the expression is evaluated.
#[derive(Debug)]
pub enum Literal {
    Nil,
    Boolean(bool),
    Number(String),
    String(String),
}

/// The mathematical content of a `Literal`.
pub enum LiteralModel {
    Nil,
    Boolean(bool),
    Number(Seq<char>),
    Str(Seq<char>),
}

impl View for Literal {
    type V = LiteralModel;

    open spec fn view(&self) -> LiteralModel {
        match self {
            Literal::Nil => LiteralModel::Nil,
            Literal::Boolean(b) => LiteralModel::Boolean(*b),
            Literal::Number(s) => LiteralModel::Number(s@),
            Literal::String(s) => LiteralModel::Str(s@),
        }
    }
}

impl Literal {
    /// A copy of the literal with the same content.
    pub fn copy(&self) -> (r: Literal)
        ensures
            r@ == self@,
    {
        match self {
            Literal::Nil => Literal::Nil,
            Literal::Boolean(b) => Literal::Boolean(*b),
            Literal::Number(s) => Literal::Number(s.clone()),
            Literal::String(s) => Literal::String(s.clone()),
        }
    }
}

/// A classified, positioned unit of source text.
#[derive(Debug)]
pub struct Token {
    pub token_type: TokenType,
    pub lexeme: String,
    pub literal: Option<Literal>,
    pub line: usize,
}

/// The mathematical content of a `Token`.
pub struct TokenModel {
    pub kind: TokenType,
    pub lexeme: Seq<char>,
    pub literal: Option<LiteralModel>,
    pub line: nat,
}

pub open spec fn literal_model(l: Option<Literal>) -> Option<LiteralModel> {
    match l {
        Some(v) => Some(v@),
        None => None,
    }
}

impl View for Token {
    type V = TokenModel;

    open spec fn view(&self) -> TokenModel {
        TokenModel {
            kind: self.token_type,
            lexeme: self.lexeme@,
            literal: literal_model(self.literal),
            line: self.line as nat,
        }
    }
}

impl Token {
    /// A copy of the token with the same content.
    pub fn copy(&self) -> (r: Token)
        ensures
            r@ == self@,
    {
        let literal = match &self.literal {
            Some(l) => Some(l.copy()),
            None => None,
        };
        Token { token_type: self.token_type, lexeme: self.lexeme.clone(), literal, line: self.line }
    }

    /// The token's source text, as it is shown in diagnostics.
    pub fn to_string(&self) -> (r: String)
        ensures
            r@ == self.lexeme@,
    {
        self.lexeme.clone()
    }
}

} // verus!
