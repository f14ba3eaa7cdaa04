use vstd::prelude::*;

use crate::error::LexError;
use crate::parser::{parse_spec, tokens_ok, Expr, ParseError, Parser};
use crate::scanner::{
    lemma_literals_round_trip, lemma_scan_ends_with_eof, lemma_step_advances,
    literal_matches_lexeme, scan, scan_errors_spec, scan_from, scan_spec, scan_step, step_tokens,
};
use crate::token::{TokenModel, TokenType};

verus! {

proof fn lemma_scan_from_eof_last(s: Seq<char>, p: int, line: nat)
    requires
        0 <= p,
    ensures
        forall|i: int|
            0 <= i < scan_from(s, p, line).0.len() - 1 ==> (#[trigger] scan_from(s, p, line).0[i]).kind
                != TokenType::EOF,
    decreases s.len() - p,
{
    if p < s.len() {
        lemma_step_advances(s, p, line);
        let st = scan_step(s, p, line);
        lemma_scan_from_eof_last(s, st.next, st.line);
        let head = step_tokens(s, p, st);
        let rest = scan_from(s, st.next, st.line).0;
        assert forall|i: int| 0 <= i < (head + rest).len() - 1 implies (#[trigger] (head
            + rest)[i]).kind != TokenType::EOF by {
            if i >= head.len() {
                assert((head + rest)[i] == rest[i - head.len()]);
            }
        }
    }
}

/// The scanner's tokens are always a valid input of the parser.
pub proof fn lemma_scan_tokens_ok(s: Seq<char>)
    ensures
        tokens_ok(scan_spec(s)),
{
    let t = scan_spec(s);
    lemma_scan_ends_with_eof(s);
    lemma_scan_from_eof_last(s, 0, 1);
    lemma_literals_round_trip(s);
    assert forall|i: int|
        0 <= i < t.len() && (t[i].kind == TokenType::NUMBER || t[i].kind == TokenType::STRING)
            implies (#[trigger] t[i]).literal is Some by {
        assert(literal_matches_lexeme(t[i]));
    }
}

/// Parsing the tokens of one source text gives the same tree every time:
/// two scans of the text, each parsed, yield structurally equal trees.
pub proof fn lemma_parse_idempotent(s: Seq<char>, t1: Seq<TokenModel>, t2: Seq<TokenModel>)
    requires
        t1 == scan_spec(s),
        t2 == scan_spec(s),
    ensures
        parse_spec(t1) == parse_spec(t2),
        parse_spec(t1) is Ok ==> parse_spec(t1)->Ok_0.0 == parse_spec(t2)->Ok_0.0,
{
}

/// Scans and parses a source text: the tree of its first expression, if it
/// parses, with the lexical and syntax errors found.
pub fn run(source: &str) -> (r: (Option<Expr>, Vec<LexError>, Vec<ParseError>))
    requires
        source@.len() < usize::MAX,
    ensures
        r.1@ == scan_errors_spec(source@),
        match parse_spec(scan_spec(source@)) {
            Ok((e, _)) => r.0 is Some && r.0->0@ == e && r.2@.len() == 0,
            Err((p, k)) => r.0 is None && r.2@ == seq![ParseError { current: p as usize, kind: k }],
        },
{
    let (tokens, lex_errors) = scan(source);
    proof {
        lemma_scan_tokens_ok(source@);
    }
    let mut parser = Parser::new(tokens);
    let tree = parser.parse();
    proof {
        if parser.parse_errors().len() == 1 {
            assert(parser.parse_errors() =~= seq![parser.parse_errors()[0]]);
        }
    }
    (tree, lex_errors, parser.errors().clone())
}

} // verus!
