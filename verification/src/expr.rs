//! A small arithmetic expression language: a lexer for integer literals,
//! the four operators, and parentheses, and a recursive-descent parser
//! with the usual sum/term precedence. It stands apart from the
//! assembler pipeline.
use vstd::prelude::*;

use crate::numbers::{digits_spec, parse_digits};
use crate::text::chars_of;

verus! {

/// One lexical token of the expression language.
#[derive(Debug, Clone, Copy, PartialEq, Eq, Structural)]
pub enum Token {
    Number(i32),
    Plus,
    Minus,
    Mul,
    Div,
    ParenthesisL,
    ParenthesisR,
}

/// A parse failure: the wrong token, or input that ends too soon.
#[derive(Debug, Clone, Copy, PartialEq, Eq, Structural)]
pub enum ExprError {
    UnexpectedToken { expected: Token, actual: Token },
    UnexpectedEOF,
}

/// The operator or literal one tree node carries.
#[derive(Debug, Clone, Copy, PartialEq, Eq, Structural)]
pub enum NodeKind {
    Num(i32),
    Add,
    Sub,
    Mul,
    Div,
}

/// One node of the expression tree.
#[derive(Debug)]
pub struct Node {
    pub kind: NodeKind,
    pub left: Option<Box<Node>>,
    pub right: Option<Box<Node>>,
}

/// The mathematical shape of a [`Node`].
pub struct NodeV {
    pub kind: NodeKind,
    pub left: Option<Box<NodeV>>,
    pub right: Option<Box<NodeV>>,
}

pub open spec fn node_model(n: Node) -> NodeV
    decreases n,
{
    NodeV {
        kind: n.kind,
        left: match n.left {
            Some(b) => Some(Box::new(node_model(*b))),
            None => None,
        },
        right: match n.right {
            Some(b) => Some(Box::new(node_model(*b))),
            None => None,
        },
    }
}

pub open spec fn is_digit_char(c: char) -> bool {
    '0' <= c && c <= '9'
}

/// The position just past the run of digits that starts at `i`.
pub open spec fn digit_end(s: Seq<char>, i: int) -> int
    decreases s.len() - i,
{
    if i < 0 || i >= s.len() || !is_digit_char(s[i]) {
        i
    } else {
        digit_end(s, i + 1)
    }
}

proof fn lemma_digit_end_bounds(s: Seq<char>, i: int)
    requires
        0 <= i <= s.len(),
    ensures
        i <= digit_end(s, i) <= s.len(),
    decreases s.len() - i,
{
    if i < s.len() && is_digit_char(s[i]) {
        lemma_digit_end_bounds(s, i + 1);
    }
}

/// `x` forced into the interval `lo ..= hi`.
pub open spec fn clamp_pos(lo: int, hi: int, x: int) -> int {
    if x < lo {
        lo
    } else if x > hi {
        hi
    } else {
        x
    }
}

pub open spec fn cons_token(t: Token, rest: Option<Seq<Token>>) -> Option<Seq<Token>> {
    match rest {
        Some(ts) => Some(seq![t] + ts),
        None => None,
    }
}

/// The token list of the text from position `i` on: operators and
/// parentheses one character each, digit runs as one literal that must
/// fit `i32`, whitespace skipped; `None` on any other character or an
/// oversized literal.
pub open spec fn lex_from(s: Seq<char>, i: int) -> Option<Seq<Token>>
    decreases s.len() - i,
{
    if i < 0 || i >= s.len() {
        Some(Seq::<Token>::empty())
    } else if s[i] == '+' {
        cons_token(Token::Plus, lex_from(s, i + 1))
    } else if s[i] == '-' {
        cons_token(Token::Minus, lex_from(s, i + 1))
    } else if s[i] == '*' {
        cons_token(Token::Mul, lex_from(s, i + 1))
    } else if s[i] == '/' {
        cons_token(Token::Div, lex_from(s, i + 1))
    } else if s[i] == '(' {
        cons_token(Token::ParenthesisL, lex_from(s, i + 1))
    } else if s[i] == ')' {
        cons_token(Token::ParenthesisR, lex_from(s, i + 1))
    } else if s[i] == ' ' || s[i] == '\n' || s[i] == '\t' {
        lex_from(s, i + 1)
    } else if is_digit_char(s[i]) {
        let e1 = clamp_pos(i + 1, s.len() as int, digit_end(s, i));
        match digits_spec(s.subrange(i, e1), 10) {
            Some(v) => if v <= 0x7fffffff {
                cons_token(Token::Number(v as i32), lex_from(s, e1))
            } else {
                None
            },
            None => None,
        }
    } else {
        None
    }
}

/// Whether a text lexes at all: no stray character and no literal over
/// `i32::MAX`.
pub open spec fn lexable(s: Seq<char>) -> bool {
    lex_from(s, 0) is Some
}

/// Splits an expression text into its tokens.
pub fn lex(program: &str) -> (r: Vec<Token>)
    requires
        lexable(program@),
    ensures
        lex_from(program@, 0) == Some(r@),
{
    let v = chars_of(program);
    let ghost s = program@;
    let n = v.len();
    let mut out: Vec<Token> = Vec::new();
    let mut i: usize = 0;
    while i < n
        invariant
            0 <= i <= n,
            n == s.len(),
            v@ == s,
            lex_from(s, 0) is Some,
            lex_from(s, 0) == (match lex_from(s, i as int) {
                Some(rest) => Some(out@ + rest),
                None => None::<Seq<Token>>,
            }),
        decreases n - i,
    {
        let ghost old_out = out@;
        let c = v[i];
        if c == '+' {
            out.push(Token::Plus);
            i = i + 1;
        } else if c == '-' {
            out.push(Token::Minus);
            i = i + 1;
        } else if c == '*' {
            out.push(Token::Mul);
            i = i + 1;
        } else if c == '/' {
            out.push(Token::Div);
            i = i + 1;
        } else if c == '(' {
            out.push(Token::ParenthesisL);
            i = i + 1;
        } else if c == ')' {
            out.push(Token::ParenthesisR);
            i = i + 1;
        } else if c == ' ' || c == '\n' || c == '\t' {
            i = i + 1;
        } else if '0' <= c && c <= '9' {
            let mut j: usize = i;
            while j < n && '0' <= v[j] && v[j] <= '9'
                invariant
                    i <= j <= n,
                    n == s.len(),
                    v@ == s,
                    digit_end(s, i as int) == digit_end(s, j as int),
                decreases n - j,
            {
                j = j + 1;
            }
            proof {
                assert(digit_end(s, j as int) == j as int);
                lemma_digit_end_bounds(s, i as int);
            }
            match parse_digits(&v, i, j, 10) {
                Some(x) => {
                    if x <= 0x7fffffff {
                        out.push(Token::Number(x as i32));
                    } else {
                        proof {
                            assert(lex_from(s, i as int) is None);
                            assert(false);
                        }
                    }
                },
                None => {
                    proof {
                        assert(lex_from(s, i as int) is None);
                        assert(false);
                    }
                },
            }
            i = j;
        } else {
            proof {
                assert(lex_from(s, i as int) is None);
                assert(false);
            }
            i = i + 1;
        }
        proof {
            if out@ != old_out && lex_from(s, i as int) is Some {
                assert(old_out + (seq![out@.last()] + lex_from(s, i as int)->0) =~= out@ + lex_from(
                    s,
                    i as int,
                )->0);
            }
        }
    }
    proof {
        assert(out@ + Seq::<Token>::empty() =~= out@);
    }
    out
}

/// A sum: a term followed by any run of `+`/`-` terms, left-associated.
pub open spec fn parse_sum_spec(toks: Seq<Token>, i: int) -> Result<(NodeV, int), ExprError>
    decreases toks.len() - i, 3int,
{
    if i < 0 || i > toks.len() {
        Err(ExprError::UnexpectedEOF)
    } else {
        match parse_term_spec(toks, i) {
            Err(e) => Err(e),
            Ok((n, j)) => parse_sum_more(toks, n, clamp_pos(i, toks.len() as int, j)),
        }
    }
}

/// The `+`/`-` continuation of a sum already holding `acc`.
pub open spec fn parse_sum_more(toks: Seq<Token>, acc: NodeV, i: int) -> Result<
    (NodeV, int),
    ExprError,
>
    decreases toks.len() - i, 2int,
{
    if i < 0 || i >= toks.len() {
        Ok((acc, i))
    } else if toks[i] == Token::Plus || toks[i] == Token::Minus {
        let kind = if toks[i] == Token::Plus {
            NodeKind::Add
        } else {
            NodeKind::Sub
        };
        match parse_term_spec(toks, i + 1) {
            Err(e) => Err(e),
            Ok((rhs, j)) => parse_sum_more(
                toks,
                NodeV { kind, left: Some(Box::new(acc)), right: Some(Box::new(rhs)) },
                clamp_pos(i + 1, toks.len() as int, j),
            ),
        }
    } else {
        Ok((acc, i))
    }
}

/// A term: a factor followed by any run of `*`/`/` factors,
/// left-associated.
pub open spec fn parse_term_spec(toks: Seq<Token>, i: int) -> Result<(NodeV, int), ExprError>
    decreases toks.len() - i, 1int,
{
    if i < 0 || i > toks.len() {
        Err(ExprError::UnexpectedEOF)
    } else {
        match parse_num_spec(toks, i) {
            Err(e) => Err(e),
            Ok((n, j)) => parse_term_more(toks, n, clamp_pos(i, toks.len() as int, j)),
        }
    }
}

/// The `*`/`/` continuation of a term already holding `acc`.
pub open spec fn parse_term_more(toks: Seq<Token>, acc: NodeV, i: int) -> Result<
    (NodeV, int),
    ExprError,
>
    decreases toks.len() - i, 0int,
{
    if i < 0 || i >= toks.len() {
        Ok((acc, i))
    } else if toks[i] == Token::Mul || toks[i] == Token::Div {
        let kind = if toks[i] == Token::Mul {
            NodeKind::Mul
        } else {
            NodeKind::Div
        };
        match parse_num_spec(toks, i + 1) {
            Err(e) => Err(e),
            Ok((rhs, j)) => parse_term_more(
                toks,
                NodeV { kind, left: Some(Box::new(acc)), right: Some(Box::new(rhs)) },
                clamp_pos(i + 1, toks.len() as int, j),
            ),
        }
    } else {
        Ok((acc, i))
    }
}

/// A factor: a number literal, or a parenthesised sum.
pub open spec fn parse_num_spec(toks: Seq<Token>, i: int) -> Result<(NodeV, int), ExprError>
    decreases toks.len() - i, 0int,
{
    if i < 0 || i >= toks.len() {
        Err(ExprError::UnexpectedEOF)
    } else {
        match toks[i] {
            Token::Number(n) => Ok((NodeV { kind: NodeKind::Num(n), left: None, right: None }, i + 1)),
            Token::ParenthesisL => match parse_sum_spec(toks, i + 1) {
                Err(e) => Err(e),
                Ok((node, j)) => {
                    if 0 <= j < toks.len() {
                        if toks[j] == Token::ParenthesisR {
                            Ok((node, j + 1))
                        } else {
                            Err(
                                ExprError::UnexpectedToken {
                                    expected: Token::ParenthesisR,
                                    actual: toks[j],
                                },
                            )
                        }
                    } else {
                        Err(ExprError::UnexpectedEOF)
                    }
                },
            },
            t => Err(ExprError::UnexpectedToken { expected: Token::Number(0), actual: t }),
        }
    }
}

fn parse_num(toks: &Vec<Token>, pos: usize) -> (r: Result<(Node, usize), ExprError>)
    requires
        pos <= toks@.len(),
    ensures
        match r {
            Ok(p) => parse_num_spec(toks@, pos as int) == Ok::<(NodeV, int), ExprError>(
                (node_model(p.0), p.1 as int),
            ) && pos < p.1 <= toks@.len(),
            Err(e) => parse_num_spec(toks@, pos as int) == Err::<(NodeV, int), ExprError>(e),
        },
    decreases toks@.len() - pos, 0int,
{
    if pos >= toks.len() {
        return Err(ExprError::UnexpectedEOF);
    }
    match toks[pos] {
        Token::Number(n) => Ok((Node { kind: NodeKind::Num(n), left: None, right: None }, pos + 1)),
        Token::ParenthesisL => {
            match parse_sum(toks, pos + 1) {
                Err(e) => Err(e),
                Ok((node, j)) => {
                    if j < toks.len() {
                        if toks[j] == Token::ParenthesisR {
                            Ok((node, j + 1))
                        } else {
                            Err(
                                ExprError::UnexpectedToken {
                                    expected: Token::ParenthesisR,
                                    actual: toks[j],
                                },
                            )
                        }
                    } else {
                        Err(ExprError::UnexpectedEOF)
                    }
                },
            }
        },
        t => Err(ExprError::UnexpectedToken { expected: Token::Number(0), actual: t }),
    }
}

fn parse_term(toks: &Vec<Token>, pos: usize) -> (r: Result<(Node, usize), ExprError>)
    requires
        pos <= toks@.len(),
    ensures
        match r {
            Ok(p) => parse_term_spec(toks@, pos as int) == Ok::<(NodeV, int), ExprError>(
                (node_model(p.0), p.1 as int),
            ) && pos < p.1 <= toks@.len(),
            Err(e) => parse_term_spec(toks@, pos as int) == Err::<(NodeV, int), ExprError>(e),
        },
    decreases toks@.len() - pos, 1int,
{
    let first = match parse_num(toks, pos) {
        Ok(p) => p,
        Err(e) => {
            return Err(e);
        },
    };
    let mut acc = first.0;
    let mut i = first.1;
    while i < toks.len() && (matches!(toks[i], Token::Mul) || matches!(toks[i], Token::Div))
        invariant
            pos < i <= toks@.len(),
            parse_term_spec(toks@, pos as int) == parse_term_more(
                toks@,
                node_model(acc),
                i as int,
            ),
        decreases toks@.len() - i,
    {
        let kind = if matches!(toks[i], Token::Mul) {
            NodeKind::Mul
        } else {
            NodeKind::Div
        };
        match parse_num(toks, i + 1) {
            Err(e) => {
                return Err(e);
            },
            Ok((rhs, j)) => {
                acc = Node { kind, left: Some(Box::new(acc)), right: Some(Box::new(rhs)) };
                i = j;
            },
        }
    }
    Ok((acc, i))
}

fn parse_sum(toks: &Vec<Token>, pos: usize) -> (r: Result<(Node, usize), ExprError>)
    requires
        pos <= toks@.len(),
    ensures
        match r {
            Ok(p) => parse_sum_spec(toks@, pos as int) == Ok::<(NodeV, int), ExprError>(
                (node_model(p.0), p.1 as int),
            ) && pos < p.1 <= toks@.len(),
            Err(e) => parse_sum_spec(toks@, pos as int) == Err::<(NodeV, int), ExprError>(e),
        },
    decreases toks@.len() - pos, 2int,
{
    let first = match parse_term(toks, pos) {
        Ok(p) => p,
        Err(e) => {
            return Err(e);
        },
    };
    let mut acc = first.0;
    let mut i = first.1;
    while i < toks.len() && (matches!(toks[i], Token::Plus) || matches!(toks[i], Token::Minus))
        invariant
            pos < i <= toks@.len(),
            parse_sum_spec(toks@, pos as int) == parse_sum_more(toks@, node_model(acc), i as int),
        decreases toks@.len() - i,
    {
        let kind = if matches!(toks[i], Token::Plus) {
            NodeKind::Add
        } else {
            NodeKind::Sub
        };
        match parse_term(toks, i + 1) {
            Err(e) => {
                return Err(e);
            },
            Ok((rhs, j)) => {
                acc = Node { kind, left: Some(Box::new(acc)), right: Some(Box::new(rhs)) };
                i = j;
            },
        }
    }
    Ok((acc, i))
}

/// The tree a whole token list parses to; tokens past the outermost sum
/// are left unread.
pub open spec fn parse_spec(toks: Seq<Token>) -> Result<NodeV, ExprError> {
    match parse_sum_spec(toks, 0) {
        Ok((n, _)) => Ok(n),
        Err(e) => Err(e),
    }
}

/// Parses a token list into an expression tree.
pub fn parse(tokens: Vec<Token>) -> (r: Result<Node, ExprError>)
    ensures
        match r {
            Ok(n) => parse_spec(tokens@) == Ok::<NodeV, ExprError>(node_model(n)),
            Err(e) => parse_spec(tokens@) == Err::<NodeV, ExprError>(e),
        },
{
    match parse_sum(&tokens, 0) {
        Ok((n, _)) => Ok(n),
        Err(e) => Err(e),
    }
}

} // verus!
