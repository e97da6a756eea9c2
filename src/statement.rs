//! Statements read from tokens: an expression, or `save <expression> to <name>`,
//! each closed by a period.
use vstd::prelude::*;
use crate::tokens::{Token, TokenOf};

verus! {

/// Literal values of statements.
#[derive(Debug, PartialEq)]
pub enum StmtValue {
    Number(u64),
    Str(String),
    Unit,
}

/// Operators of statement expressions.
#[derive(Debug, Clone, Copy, PartialEq)]
pub enum Operator {
    Add,
}

/// Expressions of statements; an operator chain groups to the right.
#[derive(Debug, PartialEq)]
pub enum StmtExpr {
    Value(StmtValue),
    Variable(String),
    Operator { lhs: Box<StmtExpr>, rhs: Box<StmtExpr>, op: Operator },
}

/// A statement.
#[derive(Debug, PartialEq)]
pub enum Node {
    Expression(StmtExpr),
    /// `save value to name`.
    Binding { name: String, value: StmtExpr },
}

/// Why tokens do not form statements.
#[derive(Debug, PartialEq)]
pub enum AstError {
    EndOfInput,
    UnexpectedToken(Token),
    ExpectedToken(Token),
    ExpectedIdent,
}

/// The position of the first token at or after `i` that is not whitespace.
pub open spec fn skip_ws(t: Seq<Token>, i: int) -> int
    decreases t.len() - i,
{
    if 0 <= i < t.len() && t[i] is Whitespace {
        skip_ws(t, i + 1)
    } else {
        i
    }
}

/// Like `skip_ws`, but at least one whitespace token must be there.
pub open spec fn require_ws(t: Seq<Token>, i: int) -> Result<int, AstError> {
    let j = skip_ws(t, i);
    if j == i {
        Err(AstError::ExpectedToken(TokenOf::Whitespace))
    } else {
        Ok(j)
    }
}

pub open spec fn operator_of(t: Token) -> Option<Operator> {
    match t {
        TokenOf::Plus => Some(Operator::Add),
        _ => None,
    }
}

/// The expression a single token stands for.
pub open spec fn primary_of(t: Token) -> Option<StmtExpr> {
    match t {
        TokenOf::Number(n) => Some(StmtExpr::Value(StmtValue::Number(n))),
        TokenOf::Str(s) => Some(StmtExpr::Value(StmtValue::Str(s))),
        TokenOf::Ident(x) => Some(StmtExpr::Variable(x)),
        _ => None,
    }
}

proof fn lemma_skip_ws(t: Seq<Token>, i: int)
    requires
        0 <= i <= t.len(),
    ensures
        i <= skip_ws(t, i) <= t.len(),
    decreases t.len() - i,
{
    if i < t.len() && t[i] is Whitespace {
        lemma_skip_ws(t, i + 1);
    }
}

/// Reads an expression at `i`: a value, then optionally `+` and an expression,
/// with whitespace allowed around the `+`. Yields where it ends.
pub open spec fn parse_expr(t: Seq<Token>, i: int) -> Result<(int, StmtExpr), AstError>
    decreases t.len() - i,
    via parse_expr_decreases
{
    if !(0 <= i < t.len()) {
        Err(AstError::EndOfInput)
    } else {
        match primary_of(t[i]) {
            None => Err(AstError::UnexpectedToken(t[i])),
            Some(lhs) => {
                let p = skip_ws(t, i + 1);
                if 0 <= p < t.len() && operator_of(t[p]) is Some {
                    match parse_expr(t, skip_ws(t, p + 1)) {
                        Ok((k, rhs)) => Ok(
                            (k, StmtExpr::Operator { lhs: Box::new(lhs), rhs: Box::new(rhs), op: Operator::Add }),
                        ),
                        Err(err) => Err(err),
                    }
                } else {
                    Ok((i + 1, lhs))
                }
            },
        }
    }
}

#[via_fn]
proof fn parse_expr_decreases(t: Seq<Token>, i: int) {
    if 0 <= i < t.len() {
        lemma_skip_ws(t, i + 1);
        let p = skip_ws(t, i + 1);
        if 0 <= p < t.len() {
            lemma_skip_ws(t, p + 1);
        }
    }
}

proof fn lemma_parse_expr_advances(t: Seq<Token>, i: int)
    ensures
        parse_expr(t, i) is Ok ==> i < parse_expr(t, i)->Ok_0.0 <= t.len(),
    decreases t.len() - i,
{
    if 0 <= i < t.len() {
        lemma_skip_ws(t, i + 1);
        let p = skip_ws(t, i + 1);
        if 0 <= p < t.len() {
            lemma_skip_ws(t, p + 1);
            lemma_parse_expr_advances(t, skip_ws(t, p + 1));
        }
    }
}

/// Reads `save`, whitespace, an expression, whitespace, `to`, whitespace and
/// a name at `i`.
pub open spec fn parse_save_at(t: Seq<Token>, i: int) -> Result<(int, Node), AstError> {
    if !(0 <= i < t.len()) {
        Err(AstError::EndOfInput)
    } else if !(t[i] is Save) {
        Err(AstError::UnexpectedToken(t[i]))
    } else {
        match require_ws(t, i + 1) {
            Err(err) => Err(err),
            Ok(p) => match parse_expr(t, p) {
                Err(err) => Err(err),
                Ok((q, e)) => match require_ws(t, q) {
                    Err(err) => Err(err),
                    Ok(r) => if !(r < t.len()) {
                        Err(AstError::EndOfInput)
                    } else if !(t[r] is To) {
                        Err(AstError::ExpectedToken(TokenOf::To))
                    } else {
                        match require_ws(t, r + 1) {
                            Err(err) => Err(err),
                            Ok(u) => if !(u < t.len()) {
                                Err(AstError::EndOfInput)
                            } else {
                                match t[u] {
                                    TokenOf::Ident(name) => Ok((u + 1, Node::Binding { name, value: e })),
                                    _ => Err(AstError::ExpectedIdent),
                                }
                            },
                        }
                    },
                },
            },
        }
    }
}

/// Reads one statement at `i`: an expression starting with a number or a
/// string, or a `save`.
pub open spec fn parse_node_at(t: Seq<Token>, i: int) -> Result<(int, Node), AstError> {
    if !(0 <= i < t.len()) {
        Err(AstError::EndOfInput)
    } else {
        match t[i] {
            TokenOf::Number(_) | TokenOf::Str(_) => match parse_expr(t, i) {
                Ok((j, e)) => Ok((j, Node::Expression(e))),
                Err(err) => Err(err),
            },
            TokenOf::Save => parse_save_at(t, i),
            _ => Err(AstError::UnexpectedToken(t[i])),
        }
    }
}

proof fn lemma_parse_node_advances(t: Seq<Token>, i: int)
    ensures
        parse_node_at(t, i) is Ok ==> i < parse_node_at(t, i)->Ok_0.0 <= t.len(),
{
    lemma_parse_expr_advances(t, i);
    if 0 <= i < t.len() && t[i] is Save {
        lemma_skip_ws(t, i + 1);
        let p = skip_ws(t, i + 1);
        lemma_parse_expr_advances(t, p);
        if parse_expr(t, p) is Ok {
            let q = parse_expr(t, p)->Ok_0.0;
            lemma_skip_ws(t, q);
            let r = skip_ws(t, q);
            if r < t.len() {
                lemma_skip_ws(t, r + 1);
            }
        }
    }
}

/// Reads statements from `i` on, each closed by a period, with whitespace
/// allowed between them.
pub open spec fn parse_nodes(t: Seq<Token>, i: int) -> Result<Seq<Node>, AstError>
    decreases t.len() - i,
    via parse_nodes_decreases
{
    let a = skip_ws(t, i);
    if !(0 <= a < t.len()) {
        Ok(Seq::empty())
    } else {
        match parse_node_at(t, a) {
            Err(err) => Err(err),
            Ok((b, node)) => {
                let c = skip_ws(t, b);
                if !(0 <= c < t.len()) {
                    Err(AstError::EndOfInput)
                } else if !(t[c] is Period) {
                    Err(AstError::ExpectedToken(TokenOf::Period))
                } else {
                    match parse_nodes(t, c + 1) {
                        Ok(ns) => Ok(seq![node] + ns),
                        Err(err) => Err(err),
                    }
                }
            },
        }
    }
}

#[via_fn]
proof fn parse_nodes_decreases(t: Seq<Token>, i: int) {
    if 0 <= i <= t.len() {
        lemma_skip_ws(t, i);
        let a = skip_ws(t, i);
        if 0 <= a < t.len() {
            lemma_parse_node_advances(t, a);
            if parse_node_at(t, a) is Ok {
                lemma_skip_ws(t, parse_node_at(t, a)->Ok_0.0);
            }
        }
    }
}

/// The position of the first token at or after `pos` that is not whitespace.
pub fn consume_whitespace(tokens: &Vec<Token>, pos: usize) -> (r: usize)
    requires
        pos <= tokens@.len(),
    ensures
        r == skip_ws(tokens@, pos as int),
{
    let mut k = pos;
    while k < tokens.len() && matches!(tokens[k], TokenOf::Whitespace)
        invariant
            pos <= k <= tokens@.len(),
            skip_ws(tokens@, pos as int) == skip_ws(tokens@, k as int),
        decreases tokens.len() - k,
    {
        k = k + 1;
    }
    k
}

/// Like `consume_whitespace`, but fails unless at least one whitespace token
/// is at `pos`.
pub fn consume_whitespace_required(tokens: &Vec<Token>, pos: usize) -> (r: Result<usize, AstError>)
    requires
        pos <= tokens@.len(),
    ensures
        match require_ws(tokens@, pos as int) {
            Ok(j) => r == Ok::<usize, AstError>(j as usize),
            Err(err) => r == Err::<usize, AstError>(err),
        },
{
    let j = consume_whitespace(tokens, pos);
    if j == pos {
        Err(AstError::ExpectedToken(TokenOf::Whitespace))
    } else {
        Ok(j)
    }
}

/// The operator a token stands for.
pub fn token_to_operator(token: &Token) -> (r: Option<Operator>)
    ensures
        r == operator_of(*token),
{
    match token {
        TokenOf::Plus => Some(Operator::Add),
        _ => None,
    }
}

fn primary(token: &Token) -> (r: Option<StmtExpr>)
    ensures
        r == primary_of(*token),
{
    match token {
        TokenOf::Number(n) => Some(StmtExpr::Value(StmtValue::Number(*n))),
        TokenOf::Str(s) => Some(StmtExpr::Value(StmtValue::Str(s.clone()))),
        TokenOf::Ident(x) => Some(StmtExpr::Variable(x.clone())),
        _ => None,
    }
}

/// Whether `r` is what the model `m` gives.
pub open spec fn parsed<T>(r: Result<(usize, T), AstError>, m: Result<(int, T), AstError>) -> bool {
    match m {
        Ok((j, v)) => r == Ok::<(usize, T), AstError>((j as usize, v)),
        Err(err) => r == Err::<(usize, T), AstError>(err),
    }
}

/// Reads an expression at `pos`; yields where it ends.
pub fn parse_expression(tokens: &Vec<Token>, pos: usize) -> (r: Result<(usize, StmtExpr), AstError>)
    requires
        pos <= tokens@.len(),
    ensures
        parsed(r, parse_expr(tokens@, pos as int)),
    decreases tokens@.len() - pos,
{
    if pos >= tokens.len() {
        return Err(AstError::EndOfInput);
    }
    let lhs = match primary(&tokens[pos]) {
        Some(e) => e,
        None => return Err(AstError::UnexpectedToken(tokens[pos].duplicate())),
    };
    let p = consume_whitespace(tokens, pos + 1);
    proof {
        lemma_skip_ws(tokens@, pos + 1);
    }
    if p < tokens.len() && token_to_operator(&tokens[p]).is_some() {
        let q = consume_whitespace(tokens, p + 1);
        proof {
            lemma_skip_ws(tokens@, p + 1);
        }
        match parse_expression(tokens, q) {
            Ok((k, rhs)) => Ok((k, StmtExpr::Operator { lhs: Box::new(lhs), rhs: Box::new(rhs), op: Operator::Add })),
            Err(err) => Err(err),
        }
    } else {
        Ok((pos + 1, lhs))
    }
}

/// Reads `save <expression> to <name>` at `pos`.
pub fn parse_save(tokens: &Vec<Token>, pos: usize) -> (r: Result<(usize, Node), AstError>)
    requires
        pos <= tokens@.len(),
    ensures
        parsed(r, parse_save_at(tokens@, pos as int)),
{
    if pos >= tokens.len() {
        return Err(AstError::EndOfInput);
    }
    if !matches!(tokens[pos], TokenOf::Save) {
        return Err(AstError::UnexpectedToken(tokens[pos].duplicate()));
    }
    let p = match consume_whitespace_required(tokens, pos + 1) {
        Ok(p) => p,
        Err(err) => return Err(err),
    };
    proof {
        lemma_skip_ws(tokens@, pos + 1);
    }
    let (q, e) = match parse_expression(tokens, p) {
        Ok(x) => x,
        Err(err) => return Err(err),
    };
    proof {
        lemma_parse_expr_advances(tokens@, p as int);
    }
    let r = match consume_whitespace_required(tokens, q) {
        Ok(r) => r,
        Err(err) => return Err(err),
    };
    proof {
        lemma_skip_ws(tokens@, q as int);
    }
    if r >= tokens.len() {
        return Err(AstError::EndOfInput);
    }
    if !matches!(tokens[r], TokenOf::To) {
        return Err(AstError::ExpectedToken(TokenOf::To));
    }
    let u = match consume_whitespace_required(tokens, r + 1) {
        Ok(u) => u,
        Err(err) => return Err(err),
    };
    proof {
        lemma_skip_ws(tokens@, r + 1);
    }
    if u >= tokens.len() {
        return Err(AstError::EndOfInput);
    }
    match &tokens[u] {
        TokenOf::Ident(name) => Ok((u + 1, Node::Binding { name: name.clone(), value: e })),
        _ => Err(AstError::ExpectedIdent),
    }
}

/// Reads one statement at `pos`.
pub fn parse_node(tokens: &Vec<Token>, pos: usize) -> (r: Result<(usize, Node), AstError>)
    requires
        pos <= tokens@.len(),
    ensures
        parsed(r, parse_node_at(tokens@, pos as int)),
{
    if pos >= tokens.len() {
        return Err(AstError::EndOfInput);
    }
    match &tokens[pos] {
        TokenOf::Number(_) | TokenOf::Str(_) => match parse_expression(tokens, pos) {
            Ok((j, e)) => Ok((j, Node::Expression(e))),
            Err(err) => Err(err),
        },
        TokenOf::Save => parse_save(tokens, pos),
        _ => Err(AstError::UnexpectedToken(tokens[pos].duplicate())),
    }
}

/// Reads all statements of `tokens`, each closed by a period.
pub fn generate_ast(tokens: Vec<Token>) -> (r: Result<Vec<Node>, AstError>)
    ensures
        match parse_nodes(tokens@, 0) {
            Ok(ns) => r is Ok && r->Ok_0@ == ns,
            Err(err) => r == Err::<Vec<Node>, AstError>(err),
        },
{
    let mut out: Vec<Node> = Vec::new();
    let mut i: usize = 0;
    loop
        invariant
            i <= tokens@.len(),
            parse_nodes(tokens@, 0) == match parse_nodes(tokens@, i as int) {
                Ok(ns) => Ok(out@ + ns),
                Err(err) => Err(err),
            },
        decreases tokens@.len() - i,
    {
        let a = consume_whitespace(&tokens, i);
        proof {
            lemma_skip_ws(tokens@, i as int);
        }
        if a >= tokens.len() {
            assert(out@ + Seq::empty() =~= out@);
            return Ok(out);
        }
        let (b, node) = match parse_node(&tokens, a) {
            Ok(x) => x,
            Err(err) => return Err(err),
        };
        proof {
            lemma_parse_node_advances(tokens@, a as int);
        }
        let c = consume_whitespace(&tokens, b);
        proof {
            lemma_skip_ws(tokens@, b as int);
        }
        if c >= tokens.len() {
            return Err(AstError::EndOfInput);
        }
        if !matches!(tokens[c], TokenOf::Period) {
            return Err(AstError::ExpectedToken(TokenOf::Period));
        }
        proof {
            if let Ok(ns) = parse_nodes(tokens@, c + 1) {
                assert(out@ + (seq![node] + ns) =~= out@.push(node) + ns);
            }
        }
        out.push(node);
        i = c + 1;
    }
}

/// The expression of a statement; a binding stands for the unit value.
pub fn node_to_expression(node: Node) -> (r: StmtExpr)
    ensures
        match node {
            Node::Expression(x) => r == x,
            Node::Binding { .. } => r == StmtExpr::Value(StmtValue::Unit),
        },
{
    match node {
        Node::Expression(x) => x,
        Node::Binding { .. } => StmtExpr::Value(StmtValue::Unit),
    }
}

} // verus!
