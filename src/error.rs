use vstd::prelude::*;

use crate::token::{Token, TokenType};

verus! {

/// What went wrong while scanning.
#[derive(Debug, Copy, Clone, PartialEq, Eq, Structural)]
pub enum LexErrorKind {
    /// A character that begins no token.
    UnexpectedCharacter(char),
    /// A string literal whose closing quote never came.
    UnterminatedString,
}

/// A lexical error and the source line on which it was found.
#[derive(Debug, Copy, Clone, PartialEq, Eq, Structural)]
pub struct LexError {
    pub line: usize,
    pub kind: LexErrorKind,
}

/// A diagnostic record: the source line, where on it (`" at end"`,
/// `" at '<lexeme>'"`, or nothing), and a message.
#[derive(Debug)]
pub struct Diagnostic {
    pub line: usize,
    pub location: String,
    pub message: String,
}

/// The diagnostic for an error at `token`.
pub fn error(token: &Token, message: &str) -> (r: Diagnostic)
    ensures
        r.line == token.line,
        r.message@ == message@,
        token.token_type == TokenType::EOF ==> r.location@ == " at end"@,
        token.token_type != TokenType::EOF ==> r.location@ == " at '"@ + token.lexeme@ + "'"@,
{
    let location = if token.token_type == TokenType::EOF {
        String::from_str(" at end")
    } else {
        String::from_str(" at '").concat(token.lexeme.as_str()).concat("'")
    };
    Diagnostic { line: token.line, location, message: String::from_str(message) }
}

/// The diagnostic for a lexical error, which names no token.
pub fn lex_error(e: &LexError) -> (r: Diagnostic)
    ensures
        r.line == e.line,
        r.location@.len() == 0,
        e.kind == LexErrorKind::UnterminatedString ==> r.message@
            == "Unterminated string! Try adding a \""@,
        e.kind is UnexpectedCharacter ==> r.message@ == "Unexpected character!"@,
{
    let message = match e.kind {
        LexErrorKind::UnexpectedCharacter(_) => String::from_str("Unexpected character!"),
        LexErrorKind::UnterminatedString => String::from_str("Unterminated string! Try adding a \""),
    };
    Diagnostic { line: e.line, location: String::new(), message }
}

} // verus!
