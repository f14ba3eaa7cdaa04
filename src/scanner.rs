use vstd::prelude::*;

use crate::error::{LexError, LexErrorKind};
use crate::token::{Literal, LiteralModel, Token, TokenModel, TokenType};

verus! {

pub open spec fn is_digit_spec(c: char) -> bool {
    '0' <= c && c <= '9'
}

pub open spec fn is_alpha_spec(c: char) -> bool {
    ('a' <= c && c <= 'z') || ('A' <= c && c <= 'Z') || c == '_'
}

pub open spec fn is_alphanumeric_spec(c: char) -> bool {
    is_alpha_spec(c) || is_digit_spec(c)
}

/// The end of the run of digits that starts at `i`.
pub open spec fn digits_end(s: Seq<char>, i: int) -> int
    decreases s.len() - i,
{
    if 0 <= i < s.len() && is_digit_spec(s[i]) {
        digits_end(s, i + 1)
    } else {
        i
    }
}

/// The end of the run of letters, digits and underscores that starts at `i`.
pub open spec fn word_end(s: Seq<char>, i: int) -> int
    decreases s.len() - i,
{
    if 0 <= i < s.len() && is_alphanumeric_spec(s[i]) {
        word_end(s, i + 1)
    } else {
        i
    }
}

/// The first index at or after `i` that holds `stop`, or the length of `s`.
pub open spec fn find_from(s: Seq<char>, i: int, stop: char) -> int
    decreases s.len() - i,
{
    if 0 <= i < s.len() && s[i] != stop {
        find_from(s, i + 1, stop)
    } else {
        i
    }
}

/// The number of newlines in `s[a..b]`.
pub open spec fn newlines(s: Seq<char>, a: int, b: int) -> nat
    decreases b - a,
{
    if a < b {
        newlines(s, a, b - 1) + if s[b - 1] == '\n' {
            1nat
        } else {
            0nat
        }
    } else {
        0
    }
}

/// The end of the number literal whose first digit is at `i`: digits, then
/// optionally a dot and digits, where the dot is taken only before a digit.
pub open spec fn number_end(s: Seq<char>, i: int) -> int {
    let e = digits_end(s, i + 1);
    if e + 1 < s.len() && s[e] == '.' && is_digit_spec(s[e + 1]) {
        digits_end(s, e + 2)
    } else {
        e
    }
}

/// The keyword spelled by `w`, or `IDENTIFIER`.
pub open spec fn keyword_or_identifier(w: Seq<char>) -> TokenType {
    if w == "and"@ {
        TokenType::AND
    } else if w == "class"@ {
        TokenType::CLASS
    } else if w == "else"@ {
        TokenType::ELSE
    } else if w == "false"@ {
        TokenType::FALSE
    } else if w == "for"@ {
        TokenType::FOR
    } else if w == "fun"@ {
        TokenType::FUN
    } else if w == "if"@ {
        TokenType::IF
    } else if w == "nil"@ {
        TokenType::NIL
    } else if w == "or"@ {
        TokenType::OR
    } else if w == "print"@ {
        TokenType::PRINT
    } else if w == "return"@ {
        TokenType::RETURN
    } else if w == "super"@ {
        TokenType::SUPER
    } else if w == "this"@ {
        TokenType::THIS
    } else if w == "true"@ {
        TokenType::TRUE
    } else if w == "var"@ {
        TokenType::VAR
    } else if w == "while"@ {
        TokenType::WHILE
    } else {
        TokenType::IDENTIFIER
    }
}

/// The token kind of a character that forms a token on its own.
pub open spec fn single_char_kind(c: char) -> Option<TokenType> {
    if c == '(' {
        Some(TokenType::LeftParen)
    } else if c == ')' {
        Some(TokenType::RightParen)
    } else if c == '{' {
        Some(TokenType::LeftBrace)
    } else if c == '}' {
        Some(TokenType::RightBrace)
    } else if c == ',' {
        Some(TokenType::Comma)
    } else if c == '.' {
        Some(TokenType::Dot)
    } else if c == '-' {
        Some(TokenType::Minus)
    } else if c == '+' {
        Some(TokenType::Plus)
    } else if c == ';' {
        Some(TokenType::Semicolon)
    } else if c == '*' {
        Some(TokenType::Star)
    } else {
        None
    }
}

/// For `!`, `=`, `<` and `>`: the kinds without and with a following `=`.
pub open spec fn operator_kinds(c: char) -> Option<(TokenType, TokenType)> {
    if c == '!' {
        Some((TokenType::Bang, TokenType::BangEqual))
    } else if c == '=' {
        Some((TokenType::Equal, TokenType::EqualEqual))
    } else if c == '<' {
        Some((TokenType::Less, TokenType::LessEqual))
    } else if c == '>' {
        Some((TokenType::Greater, TokenType::GreaterEqual))
    } else {
        None
    }
}

/// What one scanning step does from position `p`: where the next step
/// starts, the line reached, and the token or error it yields, if any.
pub struct Step {
    pub next: int,
    pub line: nat,
    pub token: Option<(TokenType, Option<LiteralModel>)>,
    pub error: Option<LexErrorKind>,
}

pub open spec fn emit(next: int, line: nat, kind: TokenType, lit: Option<LiteralModel>) -> Step {
    Step { next, line, token: Some((kind, lit)), error: None }
}

pub open spec fn skip(next: int, line: nat) -> Step {
    Step { next, line, token: None, error: None }
}

pub open spec fn scan_step(s: Seq<char>, p: int, line: nat) -> Step {
    let c = s[p];
    if single_char_kind(c) is Some {
        emit(p + 1, line, single_char_kind(c)->0, None)
    } else if operator_kinds(c) is Some {
        let (short, long) = operator_kinds(c)->0;
        if p + 1 < s.len() && s[p + 1] == '=' {
            emit(p + 2, line, long, None)
        } else {
            emit(p + 1, line, short, None)
        }
    } else if c == '/' {
        if p + 1 < s.len() && s[p + 1] == '/' {
            skip(find_from(s, p + 2, '\n'), line)
        } else {
            emit(p + 1, line, TokenType::Slash, None)
        }
    } else if c == ' ' || c == '\r' || c == '\t' {
        skip(p + 1, line)
    } else if c == '\n' {
        skip(p + 1, line + 1)
    } else if c == '"' {
        let e = find_from(s, p + 1, '"');
        let l = line + newlines(s, p + 1, e);
        if e >= s.len() {
            Step { next: e, line: l, token: None, error: Some(LexErrorKind::UnterminatedString) }
        } else {
            emit(e + 1, l, TokenType::STRING, Some(LiteralModel::Str(s.subrange(p + 1, e))))
        }
    } else if is_digit_spec(c) {
        let e = number_end(s, p);
        emit(e, line, TokenType::NUMBER, Some(LiteralModel::Number(s.subrange(p, e))))
    } else if is_alpha_spec(c) {
        let e = word_end(s, p + 1);
        emit(e, line, keyword_or_identifier(s.subrange(p, e)), None)
    } else {
        Step {
            next: p + 1,
            line,
            token: None,
            error: Some(LexErrorKind::UnexpectedCharacter(c)),
        }
    }
}

/// The token that a step yields, as a sequence of zero or one.
pub open spec fn step_tokens(s: Seq<char>, p: int, st: Step) -> Seq<TokenModel> {
    match st.token {
        Some((kind, literal)) => seq![
            TokenModel { kind, lexeme: s.subrange(p, st.next), literal, line: st.line },
        ],
        None => seq![],
    }
}

/// The error that a step yields, as a sequence of zero or one.
pub open spec fn step_errors(st: Step) -> Seq<LexError> {
    match st.error {
        Some(kind) => seq![LexError { line: st.line as usize, kind }],
        None => seq![],
    }
}

pub open spec fn eof_token(line: nat) -> TokenModel {
    TokenModel { kind: TokenType::EOF, lexeme: seq![], literal: None, line }
}

/// The tokens and errors of scanning `s` from position `p` on line `line`.
pub open spec fn scan_from(s: Seq<char>, p: int, line: nat) -> (Seq<TokenModel>, Seq<LexError>)
    decreases s.len() - p,
{
    if p < 0 || p >= s.len() {
        (seq![eof_token(line)], seq![])
    } else {
        let st = scan_step(s, p, line);
        if p < st.next <= s.len() {
            let rest = scan_from(s, st.next, st.line);
            (step_tokens(s, p, st) + rest.0, step_errors(st) + rest.1)
        } else {
            (seq![], seq![])
        }
    }
}

proof fn lemma_digits_end_bounds(s: Seq<char>, i: int)
    requires
        0 <= i <= s.len(),
    ensures
        i <= digits_end(s, i) <= s.len(),
    decreases s.len() - i,
{
    if i < s.len() && is_digit_spec(s[i]) {
        lemma_digits_end_bounds(s, i + 1);
    }
}

proof fn lemma_word_end_bounds(s: Seq<char>, i: int)
    requires
        0 <= i <= s.len(),
    ensures
        i <= word_end(s, i) <= s.len(),
    decreases s.len() - i,
{
    if i < s.len() && is_alphanumeric_spec(s[i]) {
        lemma_word_end_bounds(s, i + 1);
    }
}

proof fn lemma_find_from_bounds(s: Seq<char>, i: int, stop: char)
    requires
        0 <= i <= s.len(),
    ensures
        i <= find_from(s, i, stop) <= s.len(),
    decreases s.len() - i,
{
    if i < s.len() && s[i] != stop {
        lemma_find_from_bounds(s, i + 1, stop);
    }
}

/// Every scanning step consumes at least one character and stays in the text.
pub(crate) proof fn lemma_step_advances(s: Seq<char>, p: int, line: nat)
    requires
        0 <= p < s.len(),
    ensures
        p < scan_step(s, p, line).next <= s.len(),
{
    let c = s[p];
    if c == '/' && p + 1 < s.len() && s[p + 1] == '/' {
        lemma_find_from_bounds(s, p + 2, '\n');
    }
    lemma_find_from_bounds(s, p + 1, '"');
    lemma_digits_end_bounds(s, p + 1);
    let e = digits_end(s, p + 1);
    if e + 1 < s.len() {
        lemma_digits_end_bounds(s, e + 2);
    }
    lemma_word_end_bounds(s, p + 1);
}

/// The tokens of a whole source text.
pub open spec fn scan_spec(s: Seq<char>) -> Seq<TokenModel> {
    scan_from(s, 0, 1).0
}

/// The lexical errors of a whole source text, in source order.
pub open spec fn scan_errors_spec(s: Seq<char>) -> Seq<LexError> {
    scan_from(s, 0, 1).1
}

pub open spec fn models(ts: Seq<Token>) -> Seq<TokenModel> {
    ts.map_values(|t: Token| t@)
}

} // verus!

verus! {

pub fn is_digit(c: char) -> (r: bool)
    ensures
        r == is_digit_spec(c),
{
    '0' <= c && c <= '9'
}

pub fn is_alpha(c: char) -> (r: bool)
    ensures
        r == is_alpha_spec(c),
{
    ('a' <= c && c <= 'z') || ('A' <= c && c <= 'Z') || c == '_'
}

pub fn is_alphanumeric(c: char) -> (r: bool)
    ensures
        r == is_alphanumeric_spec(c),
{
    is_alpha(c) || is_digit(c)
}

fn single_char_type(c: char) -> (r: Option<TokenType>)
    ensures
        r == single_char_kind(c),
{
    match c {
        '(' => Some(TokenType::LeftParen),
        ')' => Some(TokenType::RightParen),
        '{' => Some(TokenType::LeftBrace),
        '}' => Some(TokenType::RightBrace),
        ',' => Some(TokenType::Comma),
        '.' => Some(TokenType::Dot),
        '-' => Some(TokenType::Minus),
        '+' => Some(TokenType::Plus),
        ';' => Some(TokenType::Semicolon),
        '*' => Some(TokenType::Star),
        _ => None,
    }
}

fn operator_types(c: char) -> (r: Option<(TokenType, TokenType)>)
    ensures
        r == operator_kinds(c),
{
    match c {
        '!' => Some((TokenType::Bang, TokenType::BangEqual)),
        '=' => Some((TokenType::Equal, TokenType::EqualEqual)),
        '<' => Some((TokenType::Less, TokenType::LessEqual)),
        '>' => Some((TokenType::Greater, TokenType::GreaterEqual)),
        _ => None,
    }
}

fn is_word(text: &String, w: &str) -> (r: bool)
    ensures
        r == (text@ == w@),
{
    let kw = String::from_str(w);
    text.eq(&kw)
}

/// The keyword spelled by `text`, or `IDENTIFIER`.
pub fn keyword_type(text: &String) -> (r: TokenType)
    ensures
        r == keyword_or_identifier(text@),
{
    if is_word(text, "and") {
        TokenType::AND
    } else if is_word(text, "class") {
        TokenType::CLASS
    } else if is_word(text, "else") {
        TokenType::ELSE
    } else if is_word(text, "false") {
        TokenType::FALSE
    } else if is_word(text, "for") {
        TokenType::FOR
    } else if is_word(text, "fun") {
        TokenType::FUN
    } else if is_word(text, "if") {
        TokenType::IF
    } else if is_word(text, "nil") {
        TokenType::NIL
    } else if is_word(text, "or") {
        TokenType::OR
    } else if is_word(text, "print") {
        TokenType::PRINT
    } else if is_word(text, "return") {
        TokenType::RETURN
    } else if is_word(text, "super") {
        TokenType::SUPER
    } else if is_word(text, "this") {
        TokenType::THIS
    } else if is_word(text, "true") {
        TokenType::TRUE
    } else if is_word(text, "var") {
        TokenType::VAR
    } else if is_word(text, "while") {
        TokenType::WHILE
    } else {
        TokenType::IDENTIFIER
    }
}

/// Turns a source text into tokens, one character at a time.
pub struct Scanner {
    source: String,
    chars: Vec<char>,
    tokens: Vec<Token>,
    errors: Vec<LexError>,
    start: usize,
    current: usize,
    line: usize,
}

/// The state after the scanning step that began at `pre.start` on `pre.line`.
spec fn stepped(pre: Scanner, post: Scanner) -> bool {
    let s = pre.chars@;
    let st = scan_step(s, pre.start as int, pre.line as nat);
    &&& post.source == pre.source
    &&& post.chars == pre.chars
    &&& post.start == pre.start
    &&& post.current == st.next
    &&& post.line == st.line
    &&& models(post.tokens@) == models(pre.tokens@) + step_tokens(s, pre.start as int, st)
    &&& post.errors@ == pre.errors@ + step_errors(st)
    &&& post.wf()
}

impl Default for Scanner {
    fn default() -> (r: Scanner)
        ensures
            r.fresh(),
            r.text() == Seq::<char>::empty(),
    {
        Scanner {
            source: String::new(),
            chars: Vec::new(),
            tokens: Vec::new(),
            errors: Vec::new(),
            start: 0,
            current: 0,
            line: 1,
        }
    }
}

impl Scanner {
    pub closed spec fn wf(&self) -> bool {
        &&& self.chars@ == self.source@
        &&& self.start <= self.current <= self.chars.len()
        &&& 1 <= self.line <= self.current + 1
        &&& self.chars.len() < usize::MAX
    }

    /// The source text, as characters.
    pub closed spec fn text(&self) -> Seq<char> {
        self.chars@
    }

    /// Nothing has been scanned yet.
    pub closed spec fn fresh(&self) -> bool {
        &&& self.wf()
        &&& self.current == 0
        &&& self.line == 1
        &&& self.tokens@.len() == 0
        &&& self.errors@.len() == 0
    }

    pub fn new(source: String) -> (r: Self)
        requires
            source@.len() < usize::MAX,
        ensures
            r.fresh(),
            r.text() == source@,
    {
        let n = source.as_str().unicode_len();
        let mut chars: Vec<char> = Vec::new();
        let mut i: usize = 0;
        while i < n
            invariant
                n == source@.len(),
                i <= n,
                chars@ == source@.subrange(0, i as int),
            decreases n - i,
        {
            chars.push(source.as_str().get_char(i));
            i = i + 1;
        }
        assert(chars@ =~= source@);
        Scanner { source, chars, tokens: Vec::new(), errors: Vec::new(), start: 0, current: 0, line: 1 }
    }

    fn is_at_end(&self) -> (r: bool)
        ensures
            r == (self.current >= self.chars.len()),
    {
        self.current >= self.chars.len()
    }

    fn advance(&mut self) -> (c: char)
        requires
            old(self).current < old(self).chars.len(),
        ensures
            c == old(self).chars@[old(self).current as int],
            final(self).current == old(self).current + 1,
            final(self).source == old(self).source,
            final(self).chars == old(self).chars,
            final(self).start == old(self).start,
            final(self).line == old(self).line,
            final(self).tokens == old(self).tokens,
            final(self).errors == old(self).errors,
    {
        self.current = self.current + 1;
        self.chars[self.current - 1]
    }

    fn peek(&self) -> (c: char)
        ensures
            c == if self.current < self.chars.len() {
                self.chars@[self.current as int]
            } else {
                '\0'
            },
    {
        if self.is_at_end() {
            return '\0';
        }
        self.chars[self.current]
    }

    fn peek_next(&self) -> (c: char)
        ensures
            c == if self.current + 1 < self.chars.len() {
                self.chars@[self.current + 1]
            } else {
                '\0'
            },
    {
        if self.current >= self.chars.len() || self.current + 1 >= self.chars.len() {
            return '\0';
        }
        self.chars[self.current + 1]
    }

    fn match_char(&mut self, expected: char) -> (r: bool)
        ensures
            r == (old(self).current < old(self).chars.len() && old(self).chars@[old(
                self,
            ).current as int] == expected),
            final(self).current == old(self).current + if r {
                1int
            } else {
                0int
            },
            final(self).source == old(self).source,
            final(self).chars == old(self).chars,
            final(self).start == old(self).start,
            final(self).line == old(self).line,
            final(self).tokens == old(self).tokens,
            final(self).errors == old(self).errors,
    {
        if self.is_at_end() {
            return false;
        }
        if self.chars[self.current] != expected {
            return false;
        }
        self.current = self.current + 1;
        true
    }

    /// The characters between two positions, as a string.
    fn text_between(&self, from: usize, to: usize) -> (r: String)
        requires
            self.chars@ == self.source@,
            from <= to <= self.chars.len(),
        ensures
            r@ == self.chars@.subrange(from as int, to as int),
    {
        let part = self.source.as_str().substring_char(from, to);
        String::from_str(part)
    }

    fn add_token(&mut self, token_type: TokenType, literal: Option<Literal>)
        requires
            old(self).chars@ == old(self).source@,
            old(self).start <= old(self).current <= old(self).chars.len(),
        ensures
            models(final(self).tokens@) == models(old(self).tokens@).push(
                TokenModel {
                    kind: token_type,
                    lexeme: old(self).chars@.subrange(
                        old(self).start as int,
                        old(self).current as int,
                    ),
                    literal: crate::token::literal_model(literal),
                    line: old(self).line as nat,
                },
            ),
            final(self).current == old(self).current,
            final(self).source == old(self).source,
            final(self).chars == old(self).chars,
            final(self).start == old(self).start,
            final(self).line == old(self).line,
            final(self).errors == old(self).errors,
    {
        let text = self.text_between(self.start, self.current);
        self.tokens.push(Token { token_type, lexeme: text, literal, line: self.line });
        assert(models(self.tokens@) =~= models(old(self).tokens@).push(self.tokens@.last()@));
    }

    /// A line comment: skips to the end of the line, which stays unread.
    fn skip_comment(&mut self)
        requires
            old(self).wf(),
            old(self).current == old(self).start + 2,
            old(self).chars@[old(self).start as int] == '/',
            old(self).chars@[old(self).start + 1] == '/',
        ensures
            stepped(*old(self), *final(self)),
    {
        let ghost s = self.chars@;
        let ghost p = self.start as int;
        while self.peek() != '\n' && !self.is_at_end()
            invariant
                self.wf(),
                self.chars@ == s,
                p == self.start,
                p + 2 <= self.current,
                find_from(s, self.current as int, '\n') == find_from(s, p + 2, '\n'),
                self.source == old(self).source,
                self.chars == old(self).chars,
                self.line == old(self).line,
                self.tokens == old(self).tokens,
                self.errors == old(self).errors,
            decreases s.len() - self.current,
        {
            self.advance();
        }
        assert(models(self.tokens@) =~= models(old(self).tokens@) + seq![]);
        assert(self.errors@ =~= old(self).errors@ + seq![]);
    }

    fn string(&mut self)
        requires
            old(self).wf(),
            old(self).current == old(self).start + 1,
            old(self).chars@[old(self).start as int] == '"',
            old(self).line <= old(self).current,
        ensures
            stepped(*old(self), *final(self)),
    {
        let ghost s = self.chars@;
        let ghost p = self.start as int;
        while self.peek() != '"' && !self.is_at_end()
            invariant
                self.wf(),
                self.chars@ == s,
                p == self.start,
                p + 1 <= self.current,
                self.line <= self.current,
                find_from(s, self.current as int, '"') == find_from(s, p + 1, '"'),
                self.line == old(self).line + newlines(s, p + 1, self.current as int),
                self.source == old(self).source,
                self.chars == old(self).chars,
                self.tokens == old(self).tokens,
                self.errors == old(self).errors,
            decreases s.len() - self.current,
        {
            if self.peek() == '\n' {
                self.line = self.line + 1;
            }
            self.advance();
        }
        if self.is_at_end() {
            self.errors.push(LexError { line: self.line, kind: LexErrorKind::UnterminatedString });
            proof {
                let st = scan_step(s, p, old(self).line as nat);
                assert(st.next == self.current);
                assert(models(self.tokens@) =~= models(old(self).tokens@) + step_tokens(s, p, st));
                assert(self.errors@ =~= old(self).errors@ + step_errors(st));
            }
            return ;
        }
        self.advance();
        let value = self.text_between(self.start + 1, self.current - 1);
        self.add_token(TokenType::STRING, Some(Literal::String(value)));
        assert(self.errors@ =~= old(self).errors@ + seq![]);
        proof {
            let st = scan_step(s, p, old(self).line as nat);
            assert(st.next == self.current);
            assert(models(self.tokens@) =~= models(old(self).tokens@) + step_tokens(s, p, st));
        }
    }

    fn number(&mut self)
        requires
            old(self).wf(),
            old(self).current == old(self).start + 1,
            is_digit_spec(old(self).chars@[old(self).start as int]),
        ensures
            stepped(*old(self), *final(self)),
    {
        let ghost s = self.chars@;
        let ghost p = self.start as int;
        while is_digit(self.peek())
            invariant
                self.wf(),
                self.chars@ == s,
                p == self.start,
                p + 1 <= self.current,
                digits_end(s, self.current as int) == digits_end(s, p + 1),
                self.source == old(self).source,
                self.chars == old(self).chars,
                self.line == old(self).line,
                self.tokens == old(self).tokens,
                self.errors == old(self).errors,
            decreases s.len() - self.current,
        {
            self.advance();
        }
        let ghost e = self.current as int;
        if self.peek() == '.' && is_digit(self.peek_next()) {
            self.advance();
            while is_digit(self.peek())
                invariant
                    self.wf(),
                    self.chars@ == s,
                    p == self.start,
                    e + 1 <= self.current,
                    digits_end(s, self.current as int) == digits_end(s, e + 2),
                    self.source == old(self).source,
                    self.chars == old(self).chars,
                    self.line == old(self).line,
                    self.tokens == old(self).tokens,
                    self.errors == old(self).errors,
                decreases s.len() - self.current,
            {
                self.advance();
            }
        }
        let text = self.text_between(self.start, self.current);
        self.add_token(TokenType::NUMBER, Some(Literal::Number(text)));
        assert(self.errors@ =~= old(self).errors@ + seq![]);
        proof {
            let st = scan_step(s, p, old(self).line as nat);
            assert(st.next == self.current);
            assert(models(self.tokens@) =~= models(old(self).tokens@) + step_tokens(s, p, st));
        }
    }

    fn identifier(&mut self)
        requires
            old(self).wf(),
            old(self).current == old(self).start + 1,
            is_alpha_spec(old(self).chars@[old(self).start as int]),
        ensures
            stepped(*old(self), *final(self)),
    {
        let ghost s = self.chars@;
        let ghost p = self.start as int;
        while is_alphanumeric(self.peek())
            invariant
                self.wf(),
                self.chars@ == s,
                p == self.start,
                p + 1 <= self.current,
                word_end(s, self.current as int) == word_end(s, p + 1),
                self.source == old(self).source,
                self.chars == old(self).chars,
                self.line == old(self).line,
                self.tokens == old(self).tokens,
                self.errors == old(self).errors,
            decreases s.len() - self.current,
        {
            self.advance();
        }
        let text = self.text_between(self.start, self.current);
        let kind = keyword_type(&text);
        self.add_token(kind, None);
        assert(self.errors@ =~= old(self).errors@ + seq![]);
        proof {
            let st = scan_step(s, p, old(self).line as nat);
            assert(st.next == self.current);
            assert(models(self.tokens@) =~= models(old(self).tokens@) + step_tokens(s, p, st));
        }
    }

    fn scan_token(&mut self)
        requires
            old(self).wf(),
            old(self).start == old(self).current,
            old(self).current < old(self).chars.len(),
        ensures
            stepped(*old(self), *final(self)),
    {
        let ghost s = self.chars@;
        let ghost p = self.start as int;
        let c = self.advance();
        if let Some(kind) = single_char_type(c) {
            self.add_token(kind, None);
        } else if let Some((short, long)) = operator_types(c) {
            if self.match_char('=') {
                self.add_token(long, None);
            } else {
                self.add_token(short, None);
            }
        } else if c == '/' {
            if self.match_char('/') {
                self.skip_comment();
                return ;
            } else {
                self.add_token(TokenType::Slash, None);
            }
        } else if c == ' ' || c == '\r' || c == '\t' {
        } else if c == '\n' {
            self.line = self.line + 1;
        } else if c == '"' {
            self.string();
            return ;
        } else if is_digit(c) {
            self.number();
            return ;
        } else if is_alpha(c) {
            self.identifier();
            return ;
        } else {
            self.errors.push(LexError { line: self.line, kind: LexErrorKind::UnexpectedCharacter(c) });
        }
        proof {
            let st = scan_step(s, p, old(self).line as nat);
            assert(st.next == self.current);
            assert(models(self.tokens@) =~= models(old(self).tokens@) + step_tokens(s, p, st));
            assert(self.errors@ =~= old(self).errors@ + step_errors(st));
        }
    }

    /// Scans the whole source: its tokens, ending with the end-of-input
    /// token, and the lexical errors found on the way.
    pub fn scan_tokens(self) -> (r: (Vec<Token>, Vec<LexError>))
        requires
            self.fresh(),
        ensures
            models(r.0@) == scan_spec(self.text()),
            r.1@ == scan_errors_spec(self.text()),
    {
        let mut sc = self;
        let ghost s = sc.chars@;
        assert(models(sc.tokens@) =~= seq![]);
        assert(sc.errors@ =~= seq![]);
        while !sc.is_at_end()
            invariant
                sc.wf(),
                sc.chars@ == s,
                models(sc.tokens@) + scan_from(s, sc.current as int, sc.line as nat).0 == scan_spec(s),
                sc.errors@ + scan_from(s, sc.current as int, sc.line as nat).1 == scan_errors_spec(s),
            decreases s.len() - sc.current,
        {
            let ghost pre = sc;
            proof {
                lemma_step_advances(s, sc.current as int, sc.line as nat);
            }
            sc.start = sc.current;
            sc.scan_token();
            proof {
                let p = pre.current as int;
                let st = scan_step(s, p, pre.line as nat);
                let rest = scan_from(s, st.next, st.line);
                assert(scan_from(s, p, pre.line as nat).0 == step_tokens(s, p, st) + rest.0);
                assert(models(pre.tokens@) + (step_tokens(s, p, st) + rest.0) =~= (models(pre.tokens@) + step_tokens(s, p, st)) + rest.0);
                assert(pre.errors@ + (step_errors(st) + rest.1) =~= (pre.errors@ + step_errors(st)) + rest.1);
            }
        }
        let ghost before = sc.tokens@;
        let eof = Token { token_type: TokenType::EOF, lexeme: String::new(), literal: None, line: sc.line };
        sc.tokens.push(eof);
        proof {
            assert(models(sc.tokens@) =~= models(before) + seq![eof_token(sc.line as nat)]);
        }
        (sc.tokens, sc.errors)
    }
}

} // verus!

verus! {

/// Scans a whole source text: its tokens, ending with the end-of-input
/// token, and the lexical errors found on the way, in source order.
pub fn scan(source: &str) -> (r: (Vec<Token>, Vec<LexError>))
    requires
        source@.len() < usize::MAX,
    ensures
        models(r.0@) == scan_spec(source@),
        r.1@ == scan_errors_spec(source@),
{
    Scanner::new(String::from_str(source)).scan_tokens()
}

} // verus!

verus! {

/// `s` from position `p` on holds only whitespace and line comments.
pub open spec fn blank_from(s: Seq<char>, p: int) -> bool
    decreases s.len() - p,
{
    if p < 0 || p >= s.len() {
        true
    } else if s[p] == ' ' || s[p] == '\r' || s[p] == '\t' || s[p] == '\n' {
        blank_from(s, p + 1)
    } else if s[p] == '/' && p + 1 < s.len() && s[p + 1] == '/' {
        let e = find_from(s, p + 2, '\n');
        p < e <= s.len() && blank_from(s, e)
    } else {
        false
    }
}

/// A literal token's stored value is what its lexeme spells: a number keeps
/// its digits, a string the text between its quotes.
pub open spec fn literal_matches_lexeme(t: TokenModel) -> bool {
    &&& t.kind == TokenType::NUMBER ==> t.literal == Some(LiteralModel::Number(t.lexeme))
    &&& t.kind == TokenType::STRING ==> t.lexeme.len() >= 2 && t.literal == Some(
        LiteralModel::Str(t.lexeme.subrange(1, t.lexeme.len() - 1)),
    )
    &&& t.kind != TokenType::NUMBER && t.kind != TokenType::STRING ==> t.literal is None
}

proof fn lemma_scan_from_ends_with_eof(s: Seq<char>, p: int, line: nat)
    requires
        0 <= p,
    ensures
        scan_from(s, p, line).0.len() > 0,
        scan_from(s, p, line).0.last().kind == TokenType::EOF,
    decreases s.len() - p,
{
    if p < s.len() {
        lemma_step_advances(s, p, line);
        let st = scan_step(s, p, line);
        lemma_scan_from_ends_with_eof(s, st.next, st.line);
        let rest = scan_from(s, st.next, st.line).0;
        assert((step_tokens(s, p, st) + rest).last() == rest.last());
    }
}

/// Whatever the input, the scanner's tokens are not empty and end with the
/// end-of-input token.
pub proof fn lemma_scan_ends_with_eof(s: Seq<char>)
    ensures
        scan_spec(s).len() > 0,
        scan_spec(s).last().kind == TokenType::EOF,
{
    lemma_scan_from_ends_with_eof(s, 0, 1);
}

proof fn lemma_blank_from_scans_to_eof(s: Seq<char>, p: int, line: nat)
    requires
        0 <= p,
        blank_from(s, p),
    ensures
        scan_from(s, p, line).0.len() == 1,
        scan_from(s, p, line).0[0].kind == TokenType::EOF,
        scan_from(s, p, line).1.len() == 0,
    decreases s.len() - p,
{
    if p < s.len() {
        lemma_step_advances(s, p, line);
        let st = scan_step(s, p, line);
        lemma_blank_from_scans_to_eof(s, st.next, st.line);
        let rest = scan_from(s, st.next, st.line);
        assert(step_tokens(s, p, st) + rest.0 =~= rest.0);
        assert(step_errors(st) + rest.1 =~= rest.1);
    }
}

/// A text of only whitespace and comments scans to the end-of-input token
/// alone, with no error.
pub proof fn lemma_blank_scans_to_eof(s: Seq<char>)
    requires
        blank_from(s, 0),
    ensures
        scan_spec(s).len() == 1,
        scan_spec(s)[0].kind == TokenType::EOF,
        scan_errors_spec(s).len() == 0,
{
    lemma_blank_from_scans_to_eof(s, 0, 1);
}

proof fn lemma_scan_from_literals(s: Seq<char>, p: int, line: nat)
    requires
        0 <= p,
    ensures
        forall|i: int|
            0 <= i < scan_from(s, p, line).0.len() ==> literal_matches_lexeme(
                #[trigger] scan_from(s, p, line).0[i],
            ),
    decreases s.len() - p,
{
    if p < s.len() {
        lemma_step_advances(s, p, line);
        let st = scan_step(s, p, line);
        lemma_scan_from_literals(s, st.next, st.line);
        let head = step_tokens(s, p, st);
        let rest = scan_from(s, st.next, st.line).0;
        if s[p] == '"' {
            lemma_find_from_bounds(s, p + 1, '"');
            let e = find_from(s, p + 1, '"');
            if e < s.len() {
                let lex = s.subrange(p, e + 1);
                assert(lex.subrange(1, lex.len() - 1) =~= s.subrange(p + 1, e));
            }
        }
        assert forall|i: int| 0 <= i < (head + rest).len() implies literal_matches_lexeme(
            #[trigger] (head + rest)[i],
        ) by {
            if i >= head.len() {
                assert((head + rest)[i] == rest[i - head.len()]);
            }
        }
    }
}

/// Every literal token holds the value that its lexeme spells.
pub proof fn lemma_literals_round_trip(s: Seq<char>)
    ensures
        forall|i: int| 0 <= i < scan_spec(s).len() ==> literal_matches_lexeme(#[trigger] scan_spec(s)[i]),
{
    lemma_scan_from_literals(s, 0, 1);
}

} // verus!
