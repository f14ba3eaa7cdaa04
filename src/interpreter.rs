use vstd::prelude::*;

use crate::parser::{Expr, ExprModel};
use crate::token::{Literal, LiteralModel, Token, TokenType};

verus! {

/// A runtime value. A number is a 64-bit floating-point number, held as its
/// IEEE 754 bit pattern; the host's `Arithmetic` computes with it.
#[derive(Debug)]
pub enum Value {
    Nil,
    Boolean(bool),
    Number(u64),
    String(String),
}

/// Floating-point arithmetic on IEEE 754 bit patterns, supplied by the host.
/// The evaluator decides every type rule itself and calls these only on
/// numbers.
pub trait Arithmetic {
    /// The value of a number literal's decimal text.
    fn decode(&self, text: &str) -> u64;

    fn negate(&self, x: u64) -> u64;

    fn sum(&self, x: u64, y: u64) -> u64;

    fn difference(&self, x: u64, y: u64) -> u64;

    fn product(&self, x: u64, y: u64) -> u64;

    fn quotient(&self, x: u64, y: u64) -> u64;

    fn less(&self, x: u64, y: u64) -> bool;

    fn less_equal(&self, x: u64, y: u64) -> bool;

    fn equal(&self, x: u64, y: u64) -> bool;
}

/// What an operator was applied to that it does not support.
#[derive(Debug, Copy, Clone, PartialEq, Eq, Structural)]
pub enum RuntimeErrorKind {
    /// Unary `-` on a value that is not a number.
    OperandMustBeNumber,
    /// `-`, `*` or `/` on operands that are not both numbers.
    OperandsMustBeNumbers,
    /// `+` on operands that are neither two numbers nor two strings.
    OperandsMustBeNumbersOrStrings,
    /// An ordering on operands of different kinds, or on nil.
    OperandsMustBeComparable,
    /// A token that is no operator in the position it stands.
    InvalidOperator,
}

/// A runtime type error, on the line of the operator that raised it.
#[derive(Debug, Copy, Clone, PartialEq, Eq, Structural)]
pub struct RuntimeError {
    pub line: usize,
    pub kind: RuntimeErrorKind,
}

impl RuntimeError {
    /// The human-readable message of the error.
    pub fn message(&self) -> (r: String)
        ensures
            self.kind == RuntimeErrorKind::OperandMustBeNumber ==> r@
                == "Operand must be a number."@,
            self.kind == RuntimeErrorKind::OperandsMustBeNumbers ==> r@
                == "Operands must be numbers."@,
            self.kind == RuntimeErrorKind::OperandsMustBeNumbersOrStrings ==> r@
                == "Operands must be two numbers or two strings."@,
            self.kind == RuntimeErrorKind::OperandsMustBeComparable ==> r@
                == "Operands must be two numbers, two strings or two booleans."@,
            self.kind == RuntimeErrorKind::InvalidOperator ==> r@ == "Invalid operator."@,
    {
        match self.kind {
            RuntimeErrorKind::OperandMustBeNumber => String::from_str("Operand must be a number."),
            RuntimeErrorKind::OperandsMustBeNumbers => String::from_str(
                "Operands must be numbers.",
            ),
            RuntimeErrorKind::OperandsMustBeNumbersOrStrings => String::from_str(
                "Operands must be two numbers or two strings.",
            ),
            RuntimeErrorKind::OperandsMustBeComparable => String::from_str(
                "Operands must be two numbers, two strings or two booleans.",
            ),
            RuntimeErrorKind::InvalidOperator => String::from_str("Invalid operator."),
        }
    }
}

/// What the evaluator knows of a value whatever the host's arithmetic does:
/// its kind, and its content unless it came from arithmetic on numbers.
pub enum Shape {
    Nil,
    /// A boolean; `None` when it came from comparing numbers.
    Boolean(Option<bool>),
    Number,
    Str(Seq<char>),
}

/// `v` has the shape `sh`.
pub open spec fn fits(v: Value, sh: Shape) -> bool {
    match (v, sh) {
        (Value::Nil, Shape::Nil) => true,
        (Value::Boolean(b), Shape::Boolean(k)) => k is None || k == Some(b),
        (Value::Number(_), Shape::Number) => true,
        (Value::String(s), Shape::Str(t)) => s@ == t,
        _ => false,
    }
}

pub open spec fn fits_outcome(r: Result<Value, RuntimeError>, s: Result<Shape, RuntimeError>) -> bool {
    match (r, s) {
        (Ok(v), Ok(sh)) => fits(v, sh),
        (Err(e), Err(f)) => e == f,
        _ => false,
    }
}

/// `Nil` and `false` are falsy; every other value is truthy.
pub open spec fn truthy(sh: Shape) -> Option<bool> {
    match sh {
        Shape::Nil => Some(false),
        Shape::Boolean(b) => b,
        _ => Some(true),
    }
}

pub open spec fn not_shape(b: Option<bool>) -> Option<bool> {
    match b {
        Some(x) => Some(!x),
        None => None,
    }
}

/// Lexicographic order on character sequences, from position `i` on.
pub open spec fn chars_less_from(a: Seq<char>, b: Seq<char>, i: int) -> bool
    decreases a.len() - i,
{
    if i < 0 || i >= a.len() {
        i < b.len()
    } else if i >= b.len() {
        false
    } else if a[i] != b[i] {
        a[i] < b[i]
    } else {
        chars_less_from(a, b, i + 1)
    }
}

pub open spec fn chars_less(a: Seq<char>, b: Seq<char>) -> bool {
    chars_less_from(a, b, 0)
}

/// `a < b`, `a <= b`, `a > b` or `a >= b`, given `a < b` and `b < a`.
pub open spec fn ordered(k: TokenType, a_lt_b: bool, b_lt_a: bool) -> bool {
    if k == TokenType::Less {
        a_lt_b
    } else if k == TokenType::LessEqual {
        !b_lt_a
    } else if k == TokenType::Greater {
        b_lt_a
    } else {
        !a_lt_b
    }
}

pub open spec fn is_ordering(k: TokenType) -> bool {
    k == TokenType::Less || k == TokenType::LessEqual || k == TokenType::Greater || k
        == TokenType::GreaterEqual
}

/// Equality of two values: different kinds are never equal.
pub open spec fn equal_shape(a: Shape, b: Shape) -> Option<bool> {
    match (a, b) {
        (Shape::Nil, Shape::Nil) => Some(true),
        (Shape::Boolean(x), Shape::Boolean(y)) => match (x, y) {
            (Some(p), Some(q)) => Some(p == q),
            _ => None,
        },
        (Shape::Number, Shape::Number) => None,
        (Shape::Str(s), Shape::Str(t)) => Some(s == t),
        _ => Some(false),
    }
}

pub open spec fn fail(line: nat, kind: RuntimeErrorKind) -> Result<Shape, RuntimeError> {
    Err(RuntimeError { line: line as usize, kind })
}

pub open spec fn unary_shape(k: TokenType, line: nat, v: Shape) -> Result<Shape, RuntimeError> {
    if k == TokenType::Minus {
        if v is Number {
            Ok(Shape::Number)
        } else {
            fail(line, RuntimeErrorKind::OperandMustBeNumber)
        }
    } else if k == TokenType::Bang {
        Ok(Shape::Boolean(not_shape(truthy(v))))
    } else {
        fail(line, RuntimeErrorKind::InvalidOperator)
    }
}

pub open spec fn binary_shape(k: TokenType, line: nat, a: Shape, b: Shape) -> Result<Shape, RuntimeError> {
    if k == TokenType::Plus {
        match (a, b) {
            (Shape::Number, Shape::Number) => Ok(Shape::Number),
            (Shape::Str(s), Shape::Str(t)) => Ok(Shape::Str(s + t)),
            _ => fail(line, RuntimeErrorKind::OperandsMustBeNumbersOrStrings),
        }
    } else if k == TokenType::Minus || k == TokenType::Star || k == TokenType::Slash {
        if a is Number && b is Number {
            Ok(Shape::Number)
        } else {
            fail(line, RuntimeErrorKind::OperandsMustBeNumbers)
        }
    } else if is_ordering(k) {
        match (a, b) {
            (Shape::Number, Shape::Number) => Ok(Shape::Boolean(None)),
            (Shape::Str(s), Shape::Str(t)) => Ok(
                Shape::Boolean(Some(ordered(k, chars_less(s, t), chars_less(t, s)))),
            ),
            (Shape::Boolean(x), Shape::Boolean(y)) => match (x, y) {
                (Some(p), Some(q)) => Ok(Shape::Boolean(Some(ordered(k, !p && q, p && !q)))),
                _ => Ok(Shape::Boolean(None)),
            },
            _ => fail(line, RuntimeErrorKind::OperandsMustBeComparable),
        }
    } else if k == TokenType::EqualEqual {
        Ok(Shape::Boolean(equal_shape(a, b)))
    } else if k == TokenType::BangEqual {
        Ok(Shape::Boolean(not_shape(equal_shape(a, b))))
    } else {
        fail(line, RuntimeErrorKind::InvalidOperator)
    }
}

pub open spec fn literal_shape(l: LiteralModel) -> Shape {
    match l {
        LiteralModel::Nil => Shape::Nil,
        LiteralModel::Boolean(b) => Shape::Boolean(Some(b)),
        LiteralModel::Number(_) => Shape::Number,
        LiteralModel::Str(s) => Shape::Str(s),
    }
}

/// The evaluation of a tree: operands from left to right, the first error
/// ending it.
pub open spec fn eval_spec(e: ExprModel) -> Result<Shape, RuntimeError>
    decreases e,
{
    match e {
        ExprModel::Literal(l) => Ok(literal_shape(l)),
        ExprModel::Grouping(inner) => eval_spec(*inner),
        ExprModel::Unary(op, right) => match eval_spec(*right) {
            Ok(v) => unary_shape(op.kind, op.line, v),
            Err(x) => Err(x),
        },
        ExprModel::Binary(left, op, right) => match eval_spec(*left) {
            Ok(a) => match eval_spec(*right) {
                Ok(b) => binary_shape(op.kind, op.line, a, b),
                Err(x) => Err(x),
            },
            Err(x) => Err(x),
        },
    }
}

} // verus!

verus! {

/// Whether `a` comes before `b` in lexicographic order.
pub fn str_less(a: &String, b: &String) -> (r: bool)
    ensures
        r == chars_less(a@, b@),
{
    let n = a.as_str().unicode_len();
    let m = b.as_str().unicode_len();
    let mut i: usize = 0;
    while i < n && i < m
        invariant
            n == a@.len(),
            m == b@.len(),
            i <= n,
            i <= m,
            chars_less_from(a@, b@, i as int) == chars_less(a@, b@),
        decreases n - i,
    {
        let x = a.as_str().get_char(i);
        let y = b.as_str().get_char(i);
        if x != y {
            return x < y;
        }
        i = i + 1;
    }
    i < m
}

/// The truthiness of a value: `Nil` and `false` are falsy.
pub open spec fn value_truthy(v: Value) -> bool {
    match v {
        Value::Nil => false,
        Value::Boolean(b) => b,
        _ => true,
    }
}

/// Evaluates expression trees, with numbers computed by a host's arithmetic.
pub struct Interpreter {}

impl Interpreter {
    pub fn new() -> (r: Interpreter) {
        Interpreter {  }
    }

    pub fn is_truthy(v: &Value) -> (r: bool)
        ensures
            r == value_truthy(*v),
    {
        match v {
            Value::Nil => false,
            Value::Boolean(b) => *b,
            _ => true,
        }
    }

    fn visit_literal_expr<A: Arithmetic>(&self, arith: &A, literal: &Literal) -> (r: Value)
        ensures
            fits(r, literal_shape(literal@)),
    {
        match literal {
            Literal::Nil => Value::Nil,
            Literal::Boolean(b) => Value::Boolean(*b),
            Literal::Number(text) => Value::Number(arith.decode(text.as_str())),
            Literal::String(s) => Value::String(s.clone()),
        }
    }

    /// Evaluates a tree to a value, or to the first runtime type error.
    pub fn evaluate<A: Arithmetic>(&self, arith: &A, expr: &Expr) -> (r: Result<Value, RuntimeError>)
        ensures
            fits_outcome(r, eval_spec(expr@)),
        decreases expr, 1nat,
    {
        match expr {
            Expr::Literal(l) => Ok(self.visit_literal_expr(arith, l)),
            Expr::Grouping(_) => self.visit_grouping_expr(arith, expr),
            Expr::Unary { .. } => self.visit_unary_expr(arith, expr),
            Expr::Binary { .. } => self.visit_binary_expr(arith, expr),
        }
    }

    pub fn visit_grouping_expr<A: Arithmetic>(&self, arith: &A, expr: &Expr) -> (r: Result<
        Value,
        RuntimeError,
    >)
        requires
            expr is Grouping,
        ensures
            fits_outcome(r, eval_spec(expr@)),
        decreases expr, 0nat,
    {
        match expr {
            Expr::Grouping(inner) => self.evaluate(arith, inner),
            // excluded by the precondition
            _ => Err(RuntimeError { line: 0, kind: RuntimeErrorKind::InvalidOperator }),
        }
    }

    pub fn visit_unary_expr<A: Arithmetic>(&self, arith: &A, expr: &Expr) -> (r: Result<
        Value,
        RuntimeError,
    >)
        requires
            expr is Unary,
        ensures
            fits_outcome(r, eval_spec(expr@)),
        decreases expr, 0nat,
    {
        match expr {
            Expr::Unary { operator, right } => {
                let value = match self.evaluate(arith, right) {
                    Ok(v) => v,
                    Err(e) => {
                        return Err(e);
                    },
                };
                match operator.token_type {
                    TokenType::Minus => match value {
                        Value::Number(n) => Ok(Value::Number(arith.negate(n))),
                        _ => Err(
                            RuntimeError {
                                line: operator.line,
                                kind: RuntimeErrorKind::OperandMustBeNumber,
                            },
                        ),
                    },
                    TokenType::Bang => Ok(Value::Boolean(!Self::is_truthy(&value))),
                    _ => Err(
                        RuntimeError { line: operator.line, kind: RuntimeErrorKind::InvalidOperator },
                    ),
                }
            },
            // excluded by the precondition
            _ => Err(RuntimeError { line: 0, kind: RuntimeErrorKind::InvalidOperator }),
        }
    }

    pub fn visit_binary_expr<A: Arithmetic>(&self, arith: &A, expr: &Expr) -> (r: Result<
        Value,
        RuntimeError,
    >)
        requires
            expr is Binary,
        ensures
            fits_outcome(r, eval_spec(expr@)),
        decreases expr, 0nat,
    {
        match expr {
            Expr::Binary { left, operator, right } => {
                let a = match self.evaluate(arith, left) {
                    Ok(v) => v,
                    Err(e) => {
                        return Err(e);
                    },
                };
                let b = match self.evaluate(arith, right) {
                    Ok(v) => v,
                    Err(e) => {
                        return Err(e);
                    },
                };
                let ghost sa = eval_spec(left@)->Ok_0;
                let ghost sb = eval_spec(right@)->Ok_0;
                Self::apply_binary(arith, operator, a, b, Ghost(sa), Ghost(sb))
            },
            // excluded by the precondition
            _ => Err(RuntimeError { line: 0, kind: RuntimeErrorKind::InvalidOperator }),
        }
    }

    /// Applies a binary operator to two evaluated operands.
    fn apply_binary<A: Arithmetic>(
        arith: &A,
        operator: &Token,
        a: Value,
        b: Value,
        Ghost(sa): Ghost<Shape>,
        Ghost(sb): Ghost<Shape>,
    ) -> (r: Result<Value, RuntimeError>)
        requires
            fits(a, sa),
            fits(b, sb),
        ensures
            fits_outcome(r, binary_shape(operator.token_type, operator.line as nat, sa, sb)),
    {
        let line = operator.line;
        match operator.token_type {
            TokenType::Plus => match (a, b) {
                (Value::Number(x), Value::Number(y)) => Ok(Value::Number(arith.sum(x, y))),
                (Value::String(x), Value::String(y)) => Ok(Value::String(x.concat(y.as_str()))),
                _ => Err(RuntimeError { line, kind: RuntimeErrorKind::OperandsMustBeNumbersOrStrings }),
            },
            TokenType::Minus | TokenType::Star | TokenType::Slash => match (a, b) {
                (Value::Number(x), Value::Number(y)) => {
                    let n = if operator.token_type == TokenType::Minus {
                        arith.difference(x, y)
                    } else if operator.token_type == TokenType::Star {
                        arith.product(x, y)
                    } else {
                        arith.quotient(x, y)
                    };
                    Ok(Value::Number(n))
                },
                _ => Err(RuntimeError { line, kind: RuntimeErrorKind::OperandsMustBeNumbers }),
            },
            TokenType::Less | TokenType::LessEqual | TokenType::Greater | TokenType::GreaterEqual => {
                let k = operator.token_type;
                match (a, b) {
                    (Value::Number(x), Value::Number(y)) => {
                        let r = if k == TokenType::Less {
                            arith.less(x, y)
                        } else if k == TokenType::LessEqual {
                            arith.less_equal(x, y)
                        } else if k == TokenType::Greater {
                            arith.less(y, x)
                        } else {
                            arith.less_equal(y, x)
                        };
                        Ok(Value::Boolean(r))
                    },
                    (Value::String(x), Value::String(y)) => {
                        let lt = str_less(&x, &y);
                        let gt = str_less(&y, &x);
                        Ok(Value::Boolean(Self::order(k, lt, gt)))
                    },
                    (Value::Boolean(x), Value::Boolean(y)) => {
                        Ok(Value::Boolean(Self::order(k, !x && y, x && !y)))
                    },
                    _ => Err(RuntimeError { line, kind: RuntimeErrorKind::OperandsMustBeComparable }),
                }
            },
            TokenType::EqualEqual => Ok(Value::Boolean(Self::is_equal(arith, &a, &b, Ghost(sa), Ghost(sb)))),
            TokenType::BangEqual => Ok(Value::Boolean(!Self::is_equal(arith, &a, &b, Ghost(sa), Ghost(sb)))),
            _ => Err(RuntimeError { line, kind: RuntimeErrorKind::InvalidOperator }),
        }
    }

    fn order(k: TokenType, a_lt_b: bool, b_lt_a: bool) -> (r: bool)
        ensures
            r == ordered(k, a_lt_b, b_lt_a),
    {
        if k == TokenType::Less {
            a_lt_b
        } else if k == TokenType::LessEqual {
            !b_lt_a
        } else if k == TokenType::Greater {
            b_lt_a
        } else {
            !a_lt_b
        }
    }

    /// Equality of two values: values of different kinds are never equal.
    fn is_equal<A: Arithmetic>(
        arith: &A,
        a: &Value,
        b: &Value,
        Ghost(sa): Ghost<Shape>,
        Ghost(sb): Ghost<Shape>,
    ) -> (r: bool)
        requires
            fits(*a, sa),
            fits(*b, sb),
        ensures
            equal_shape(sa, sb) is Some ==> r == equal_shape(sa, sb)->0,
    {
        match (a, b) {
            (Value::Nil, Value::Nil) => true,
            (Value::Boolean(x), Value::Boolean(y)) => *x == *y,
            (Value::Number(x), Value::Number(y)) => arith.equal(*x, *y),
            (Value::String(x), Value::String(y)) => x.eq(y),
            _ => false,
        }
    }
}

} // verus!
