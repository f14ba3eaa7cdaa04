use vstd::prelude::*;

use crate::scanner::models;
use crate::token::{Literal, LiteralModel, Token, TokenModel, TokenType};

verus! {

/// An expression tree. Each node owns its sub-expressions.
#[derive(Debug)]
pub enum Expr {
    Binary { left: Box<Expr>, operator: Token, right: Box<Expr> },
    Unary { operator: Token, right: Box<Expr> },
    Literal(Literal),
    Grouping(Box<Expr>),
}

/// The mathematical content of an `Expr`.
pub enum ExprModel {
    Binary(Box<ExprModel>, TokenModel, Box<ExprModel>),
    Unary(TokenModel, Box<ExprModel>),
    Literal(LiteralModel),
    Grouping(Box<ExprModel>),
}

pub open spec fn expr_model(e: Expr) -> ExprModel
    decreases e,
{
    match e {
        Expr::Binary { left, operator, right } => ExprModel::Binary(
            Box::new(expr_model(*left)),
            operator@,
            Box::new(expr_model(*right)),
        ),
        Expr::Unary { operator, right } => ExprModel::Unary(
            operator@,
            Box::new(expr_model(*right)),
        ),
        Expr::Literal(l) => ExprModel::Literal(l@),
        Expr::Grouping(inner) => ExprModel::Grouping(Box::new(expr_model(*inner))),
    }
}

impl View for Expr {
    type V = ExprModel;

    open spec fn view(&self) -> ExprModel {
        expr_model(*self)
    }
}

/// Which grammar production was not found.
#[derive(Debug, Copy, Clone, PartialEq, Eq, Structural)]
pub enum SyntaxErrorKind {
    /// No expression starts at the token.
    ExpectedExpression,
    /// A parenthesised expression is not closed at the token.
    ExpectedRightParen,
}

/// A syntax error: the position of the offending token and what was expected.
#[derive(Debug, Copy, Clone, PartialEq, Eq, Structural)]
pub struct ParseError {
    pub current: usize,
    pub kind: SyntaxErrorKind,
}

impl ParseError {
    /// The human-readable message of the error.
    pub fn message(&self) -> (r: String)
        ensures
            self.kind == SyntaxErrorKind::ExpectedExpression ==> r@ == "Expected expression!"@,
            self.kind == SyntaxErrorKind::ExpectedRightParen ==> r@
                == "Expected ')' after expression!"@,
    {
        match self.kind {
            SyntaxErrorKind::ExpectedExpression => String::from_str("Expected expression!"),
            SyntaxErrorKind::ExpectedRightParen => String::from_str(
                "Expected ')' after expression!",
            ),
        }
    }
}

// Precedence levels, from the tightest binding to the loosest.
pub const PRIMARY: u8 = 0;
pub const UNARY: u8 = 1;
pub const FACTOR: u8 = 2;
pub const TERM: u8 = 3;
pub const COMPARISON: u8 = 4;
pub const EQUALITY: u8 = 5;

/// The infix operators of a binary precedence level.
pub open spec fn level_op(level: nat, k: TokenType) -> bool {
    if level == EQUALITY {
        k == TokenType::BangEqual || k == TokenType::EqualEqual
    } else if level == COMPARISON {
        k == TokenType::Greater || k == TokenType::GreaterEqual || k == TokenType::Less || k
            == TokenType::LessEqual
    } else if level == TERM {
        k == TokenType::Minus || k == TokenType::Plus
    } else if level == FACTOR {
        k == TokenType::Slash || k == TokenType::Star
    } else {
        false
    }
}

pub open spec fn unary_op(k: TokenType) -> bool {
    k == TokenType::Bang || k == TokenType::Minus
}

/// The result of parsing: a tree and the position after it, or the position
/// and kind of the first syntax error.
pub type Parsed = Result<(ExprModel, int), (int, SyntaxErrorKind)>;

/// Parses the production of precedence `level` at position `pos` of `t`.
pub open spec fn parse_at(t: Seq<TokenModel>, pos: int, level: nat) -> Parsed
    decreases t.len() - pos, level, 1nat,
{
    if pos < 0 || pos >= t.len() {
        Err((pos, SyntaxErrorKind::ExpectedExpression))
    } else if level == PRIMARY {
        let k = t[pos].kind;
        if k == TokenType::FALSE {
            Ok((ExprModel::Literal(LiteralModel::Boolean(false)), pos + 1))
        } else if k == TokenType::TRUE {
            Ok((ExprModel::Literal(LiteralModel::Boolean(true)), pos + 1))
        } else if k == TokenType::NIL {
            Ok((ExprModel::Literal(LiteralModel::Nil), pos + 1))
        } else if (k == TokenType::NUMBER || k == TokenType::STRING) && t[pos].literal is Some {
            Ok((ExprModel::Literal(t[pos].literal->0), pos + 1))
        } else if k == TokenType::LeftParen {
            match parse_at(t, pos + 1, EQUALITY as nat) {
                Ok((e, p)) => if 0 <= p < t.len() && t[p].kind == TokenType::RightParen {
                    Ok((ExprModel::Grouping(Box::new(e)), p + 1))
                } else {
                    Err((p, SyntaxErrorKind::ExpectedRightParen))
                },
                Err(x) => Err(x),
            }
        } else {
            Err((pos, SyntaxErrorKind::ExpectedExpression))
        }
    } else if level == UNARY {
        if unary_op(t[pos].kind) {
            match parse_at(t, pos + 1, UNARY as nat) {
                Ok((e, p)) => Ok((ExprModel::Unary(t[pos], Box::new(e)), p)),
                Err(x) => Err(x),
            }
        } else {
            parse_at(t, pos, PRIMARY as nat)
        }
    } else if level <= EQUALITY {
        match parse_at(t, pos, (level - 1) as nat) {
            Ok((e, p)) => if pos <= p <= t.len() {
                fold_at(t, p, level, e)
            } else {
                Ok((e, p))
            },
            Err(x) => Err(x),
        }
    } else {
        Err((pos, SyntaxErrorKind::ExpectedExpression))
    }
}

/// Folds `left` with the operators of `level` and their right operands from
/// position `pos` on, each new node taking the tree so far as its left side.
pub open spec fn fold_at(t: Seq<TokenModel>, pos: int, level: nat, left: ExprModel) -> Parsed
    decreases t.len() - pos, level, 0nat,
{
    if 0 <= pos < t.len() && 1 <= level && level_op(level, t[pos].kind) {
        match parse_at(t, pos + 1, (level - 1) as nat) {
            Ok((r, p)) => if pos < p <= t.len() {
                fold_at(t, p, level, ExprModel::Binary(Box::new(left), t[pos], Box::new(r)))
            } else {
                Ok((left, pos))
            },
            Err(x) => Err(x),
        }
    } else {
        Ok((left, pos))
    }
}

/// The tree of a whole token sequence, parsed as one expression.
pub open spec fn parse_spec(t: Seq<TokenModel>) -> Parsed {
    parse_at(t, 0, EQUALITY as nat)
}

/// A token sequence as the scanner makes it: it ends with the end-of-input
/// token, which stands nowhere else, and each number or string token holds
/// its literal.
pub open spec fn tokens_ok(t: Seq<TokenModel>) -> bool {
    &&& t.len() > 0
    &&& t.last().kind == TokenType::EOF
    &&& forall|i: int| 0 <= i < t.len() - 1 ==> #[trigger] t[i].kind != TokenType::EOF
    &&& forall|i: int|
        0 <= i < t.len() && (t[i].kind == TokenType::NUMBER || t[i].kind == TokenType::STRING)
            ==> (#[trigger] t[i]).literal is Some
}

/// `r` is the executable form of the parse result `s`.
pub open spec fn agrees(r: Result<Expr, ParseError>, s: Parsed) -> bool {
    match s {
        Ok((e, _)) => r is Ok && r->Ok_0@ == e,
        Err((p, k)) => r == Err::<Expr, ParseError>(ParseError { current: p as usize, kind: k }),
    }
}

} // verus!

verus! {

pub open spec fn statement_start(k: TokenType) -> bool {
    k == TokenType::CLASS || k == TokenType::FUN || k == TokenType::VAR || k == TokenType::FOR
        || k == TokenType::IF || k == TokenType::WHILE || k == TokenType::PRINT || k
        == TokenType::RETURN
}

/// Where recovery that has reached position `q` stops: at the end of input,
/// just after a `;`, or on a token that begins a statement.
pub open spec fn sync_from(t: Seq<TokenModel>, q: int) -> int
    decreases t.len() - q,
{
    if q < 1 || q >= t.len() || t[q].kind == TokenType::EOF {
        q
    } else if t[q - 1].kind == TokenType::Semicolon {
        q
    } else if statement_start(t[q].kind) {
        q
    } else {
        sync_from(t, q + 1)
    }
}

/// Where recovery from an error at position `pos` stops: the offending token
/// is always discarded, unless it is the end of input.
pub open spec fn synchronize_spec(t: Seq<TokenModel>, pos: int) -> int {
    if t[pos].kind == TokenType::EOF {
        pos
    } else {
        sync_from(t, pos + 1)
    }
}

/// A recursive-descent parser over a token sequence.
pub struct Parser {
    tokens: Vec<Token>,
    current: usize,
    errors: Vec<ParseError>,
}

/// The state after parsing the production of `level` from `pre`'s position:
/// on success the position after the tree, on failure the error's position.
spec fn outcome(pre: Parser, post: Parser, r: Result<Expr, ParseError>, s: Parsed) -> bool {
    &&& post.wf()
    &&& post.tokens == pre.tokens
    &&& post.errors == pre.errors
    &&& agrees(r, s)
    &&& s is Ok ==> post.current == s->Ok_0.1 && pre.current < post.current
    &&& s is Err ==> post.current == s->Err_0.0
}

impl Parser {
    pub closed spec fn wf(&self) -> bool {
        &&& tokens_ok(models(self.tokens@))
        &&& self.current < self.tokens.len()
    }

    /// The tokens being parsed.
    pub closed spec fn token_models(&self) -> Seq<TokenModel> {
        models(self.tokens@)
    }

    /// The position of the next token to read.
    pub closed spec fn pos(&self) -> int {
        self.current as int
    }

    /// The syntax errors recorded so far.
    pub closed spec fn parse_errors(&self) -> Seq<ParseError> {
        self.errors@
    }

    pub fn new(tokens: Vec<Token>) -> (r: Self)
        requires
            tokens_ok(models(tokens@)),
        ensures
            r.wf(),
            r.token_models() == models(tokens@),
            r.pos() == 0,
            r.parse_errors().len() == 0,
    {
        Parser { tokens, current: 0, errors: Vec::new() }
    }

    /// The position of the next token to read.
    pub fn position(&self) -> (r: usize)
        ensures
            r == self.pos(),
    {
        self.current
    }

    /// The syntax errors recorded so far, in the order they were found.
    pub fn errors(&self) -> (r: &Vec<ParseError>)
        ensures
            r@ == self.parse_errors(),
    {
        &self.errors
    }

    fn peek(&self) -> (r: &Token)
        requires
            self.wf(),
        ensures
            r@ == models(self.tokens@)[self.current as int],
    {
        &self.tokens[self.current]
    }

    fn previous(&self) -> (r: Token)
        requires
            self.wf(),
            self.current > 0,
        ensures
            r@ == models(self.tokens@)[self.current - 1],
    {
        self.tokens[self.current - 1].copy()
    }

    fn is_at_end(&self) -> (r: bool)
        requires
            self.wf(),
        ensures
            r == (models(self.tokens@)[self.current as int].kind == TokenType::EOF),
    {
        self.peek().token_type == TokenType::EOF
    }

    fn check(&self, token_type: TokenType) -> (r: bool)
        requires
            self.wf(),
        ensures
            r == (models(self.tokens@)[self.current as int].kind != TokenType::EOF && models(
                self.tokens@,
            )[self.current as int].kind == token_type),
    {
        if self.is_at_end() {
            return false;
        }
        self.peek().token_type == token_type
    }

    fn advance(&mut self)
        requires
            old(self).wf(),
        ensures
            final(self).wf(),
            final(self).tokens == old(self).tokens,
            final(self).errors == old(self).errors,
            final(self).current == if models(old(self).tokens@)[old(self).current as int].kind
                == TokenType::EOF {
                old(self).current as int
            } else {
                old(self).current + 1
            },
    {
        if !self.is_at_end() {
            proof {
                let t = models(self.tokens@);
                assert(t[self.current as int].kind != TokenType::EOF);
            }
            self.current = self.current + 1;
        }
    }

    fn match_level(&mut self, level: u8) -> (r: bool)
        requires
            old(self).wf(),
        ensures
            final(self).wf(),
            final(self).tokens == old(self).tokens,
            final(self).errors == old(self).errors,
            r == level_op(level as nat, models(old(self).tokens@)[old(self).current as int].kind),
            final(self).current == old(self).current + if r {
                1int
            } else {
                0int
            },
    {
        let k = self.peek().token_type;
        let found = if level == EQUALITY {
            k == TokenType::BangEqual || k == TokenType::EqualEqual
        } else if level == COMPARISON {
            k == TokenType::Greater || k == TokenType::GreaterEqual || k == TokenType::Less || k
                == TokenType::LessEqual
        } else if level == TERM {
            k == TokenType::Minus || k == TokenType::Plus
        } else if level == FACTOR {
            k == TokenType::Slash || k == TokenType::Star
        } else {
            false
        };
        if found {
            self.advance();
        }
        found
    }

    fn consume(&mut self, token_type: TokenType, kind: SyntaxErrorKind) -> (r: Result<
        Token,
        ParseError,
    >)
        requires
            old(self).wf(),
        ensures
            final(self).wf(),
            final(self).tokens == old(self).tokens,
            final(self).errors == old(self).errors,
            ({
                let tk = models(old(self).tokens@)[old(self).current as int];
                if tk.kind != TokenType::EOF && tk.kind == token_type {
                    r is Ok && r->Ok_0@ == tk && final(self).current == old(self).current + 1
                } else {
                    r == Err::<Token, ParseError>(ParseError { current: old(self).current, kind })
                        && final(self).current == old(self).current
                }
            }),
    {
        if self.check(token_type) {
            self.advance();
            return Ok(self.previous());
        }
        Err(ParseError { current: self.current, kind })
    }

    /// Parses the production of precedence `level`.
    fn parse_level(&mut self, level: u8) -> (r: Result<Expr, ParseError>)
        requires
            old(self).wf(),
            level <= EQUALITY,
        ensures
            outcome(
                *old(self),
                *final(self),
                r,
                parse_at(models(old(self).tokens@), old(self).current as int, level as nat),
            ),
        decreases old(self).tokens@.len() - old(self).current, level, 3nat,
    {
        if level == PRIMARY {
            self.primary()
        } else if level == UNARY {
            self.unary()
        } else if level == FACTOR {
            self.factor()
        } else if level == TERM {
            self.term()
        } else if level == COMPARISON {
            self.comparison()
        } else {
            self.equality()
        }
    }

    /// Folds `left` with the operators of `level` and their operands, from
    /// left to right.
    fn fold_binary(&mut self, level: u8, left: Expr) -> (r: Result<Expr, ParseError>)
        requires
            old(self).wf(),
            FACTOR <= level <= EQUALITY,
        ensures
            final(self).wf(),
            final(self).tokens == old(self).tokens,
            final(self).errors == old(self).errors,
            ({
                let f = fold_at(models(old(self).tokens@), old(self).current as int, level as nat, left@);
                &&& agrees(r, f)
                &&& f is Ok ==> final(self).current == f->Ok_0.1 && old(self).current <= final(self).current
                &&& f is Err ==> final(self).current == f->Err_0.0
            }),
        decreases old(self).tokens@.len() - old(self).current, level, 1nat,
    {
        let ghost t = models(self.tokens@);
        let ghost start = self.current as int;
        let ghost target = fold_at(t, start, level as nat, left@);
        let mut expr = left;
        loop
            invariant
                self.wf(),
                self.tokens == old(self).tokens,
                self.errors == old(self).errors,
                t == models(self.tokens@),
                start == old(self).current,
                start <= self.current,
                target == fold_at(t, start, level as nat, left@),
                fold_at(t, self.current as int, level as nat, expr@) == target,
                FACTOR <= level <= EQUALITY,
            decreases t.len() - self.current,
        {
            let ghost c = self.current as int;
            let ghost before = expr@;
            if !self.match_level(level) {
                return Ok(expr);
            }
            assert(self.current > old(self).current);
            let operator = self.previous();
            let right = self.parse_level(level - 1);
            match right {
                Ok(r) => {
                    expr = Expr::Binary { left: Box::new(expr), operator, right: Box::new(r) };
                    assert(expr@ == ExprModel::Binary(Box::new(before), t[c], Box::new(r@)));
                },
                Err(e) => {
                    assert(fold_at(t, c, level as nat, before) == parse_at(t, c + 1, (level - 1) as nat));
                    return Err(e);
                },
            }
        }
    }

    fn expression(&mut self) -> (r: Result<Expr, ParseError>)
        requires
            old(self).wf(),
        ensures
            outcome(
                *old(self),
                *final(self),
                r,
                parse_at(models(old(self).tokens@), old(self).current as int, EQUALITY as nat),
            ),
        decreases old(self).tokens@.len() - old(self).current, EQUALITY, 3nat,
    {
        self.equality()
    }

    fn equality(&mut self) -> (r: Result<Expr, ParseError>)
        requires
            old(self).wf(),
        ensures
            outcome(
                *old(self),
                *final(self),
                r,
                parse_at(models(old(self).tokens@), old(self).current as int, EQUALITY as nat),
            ),
        decreases old(self).tokens@.len() - old(self).current, EQUALITY, 2nat,
    {
        let expr = self.comparison()?;
        self.fold_binary(EQUALITY, expr)
    }

    fn comparison(&mut self) -> (r: Result<Expr, ParseError>)
        requires
            old(self).wf(),
        ensures
            outcome(
                *old(self),
                *final(self),
                r,
                parse_at(models(old(self).tokens@), old(self).current as int, COMPARISON as nat),
            ),
        decreases old(self).tokens@.len() - old(self).current, COMPARISON, 2nat,
    {
        let expr = self.term()?;
        self.fold_binary(COMPARISON, expr)
    }

    fn term(&mut self) -> (r: Result<Expr, ParseError>)
        requires
            old(self).wf(),
        ensures
            outcome(
                *old(self),
                *final(self),
                r,
                parse_at(models(old(self).tokens@), old(self).current as int, TERM as nat),
            ),
        decreases old(self).tokens@.len() - old(self).current, TERM, 2nat,
    {
        let expr = self.factor()?;
        self.fold_binary(TERM, expr)
    }

    fn factor(&mut self) -> (r: Result<Expr, ParseError>)
        requires
            old(self).wf(),
        ensures
            outcome(
                *old(self),
                *final(self),
                r,
                parse_at(models(old(self).tokens@), old(self).current as int, FACTOR as nat),
            ),
        decreases old(self).tokens@.len() - old(self).current, FACTOR, 2nat,
    {
        let expr = self.unary()?;
        self.fold_binary(FACTOR, expr)
    }

    fn unary(&mut self) -> (r: Result<Expr, ParseError>)
        requires
            old(self).wf(),
        ensures
            outcome(
                *old(self),
                *final(self),
                r,
                parse_at(models(old(self).tokens@), old(self).current as int, UNARY as nat),
            ),
        decreases old(self).tokens@.len() - old(self).current, UNARY, 2nat,
    {
        let k = self.peek().token_type;
        if k == TokenType::Bang || k == TokenType::Minus {
            self.advance();
            let operator = self.previous();
            let right = self.unary()?;
            return Ok(Expr::Unary { operator, right: Box::new(right) });
        }
        self.primary()
    }

    fn primary(&mut self) -> (r: Result<Expr, ParseError>)
        requires
            old(self).wf(),
        ensures
            outcome(
                *old(self),
                *final(self),
                r,
                parse_at(models(old(self).tokens@), old(self).current as int, PRIMARY as nat),
            ),
        decreases old(self).tokens@.len() - old(self).current, PRIMARY, 2nat,
    {
        let k = self.peek().token_type;
        if k == TokenType::FALSE {
            self.advance();
            return Ok(Expr::Literal(Literal::Boolean(false)));
        }
        if k == TokenType::TRUE {
            self.advance();
            return Ok(Expr::Literal(Literal::Boolean(true)));
        }
        if k == TokenType::NIL {
            self.advance();
            return Ok(Expr::Literal(Literal::Nil));
        }
        if k == TokenType::NUMBER || k == TokenType::STRING {
            match &self.tokens[self.current].literal {
                Some(l) => {
                    let value = l.copy();
                    self.advance();
                    return Ok(Expr::Literal(value));
                },
                None => {},
            }
        }
        if k == TokenType::LeftParen {
            self.advance();
            let expr = self.expression()?;
            self.consume(TokenType::RightParen, SyntaxErrorKind::ExpectedRightParen)?;
            return Ok(Expr::Grouping(Box::new(expr)));
        }
        Err(ParseError { current: self.current, kind: SyntaxErrorKind::ExpectedExpression })
    }

    /// Panic-mode recovery: discards tokens up to a likely statement
    /// boundary, which is just after a `;` or on a token that begins a
    /// statement, and never past the end of input.
    pub fn synchronize(&mut self)
        requires
            old(self).wf(),
        ensures
            final(self).wf(),
            final(self).token_models() == old(self).token_models(),
            final(self).parse_errors() == old(self).parse_errors(),
            final(self).pos() == synchronize_spec(old(self).token_models(), old(self).pos()),
    {
        let ghost t = models(self.tokens@);
        let ghost target = synchronize_spec(t, self.current as int);
        self.advance();
        while !self.is_at_end()
            invariant
                self.wf(),
                self.tokens == old(self).tokens,
                self.errors == old(self).errors,
                t == models(self.tokens@),
                self.current >= 1 || t[self.current as int].kind == TokenType::EOF,
                sync_from(t, self.current as int) == target,
                target == synchronize_spec(t, old(self).current as int),
            decreases t.len() - self.current,
        {
            assert(t[self.current - 1] == self.tokens@[self.current - 1]@);
            if self.tokens[self.current - 1].token_type == TokenType::Semicolon {
                return ;
            }
            let k = self.peek().token_type;
            if k == TokenType::CLASS || k == TokenType::FUN || k == TokenType::VAR || k
                == TokenType::FOR || k == TokenType::IF || k == TokenType::WHILE || k
                == TokenType::PRINT || k == TokenType::RETURN {
                return ;
            }
            self.advance();
        }
    }

    /// Parses one expression from the current position. On a syntax error
    /// it records the error, recovers from it, and returns no tree.
    pub fn parse(&mut self) -> (r: Option<Expr>)
        requires
            old(self).wf(),
        ensures
            final(self).wf(),
            final(self).token_models() == old(self).token_models(),
            match parse_at(old(self).token_models(), old(self).pos(), EQUALITY as nat) {
                Ok((e, p)) => r is Some && r->0@ == e && final(self).pos() == p
                    && final(self).parse_errors() == old(self).parse_errors(),
                Err((p, k)) => r is None && final(self).parse_errors() == old(
                    self,
                ).parse_errors().push(ParseError { current: p as usize, kind: k })
                    && final(self).pos() == synchronize_spec(old(self).token_models(), p),
            },
    {
        match self.expression() {
            Ok(e) => Some(e),
            Err(err) => {
                self.errors.push(err);
                self.synchronize();
                None
            },
        }
    }
}

} // verus!
