//! The SoftQL grammar, as a function on token sequences.
//!
//! ```text
//! query       := ident ( "." op_call )*
//! op_call     := join "(" ident [ "," predicate ] ")"
//!              | where "(" predicate ")" | having "(" predicate ")"
//!              | group "(" expression ")"
//!              | ( aggregate | project | order ) "(" expressions ")"
//!              | limit "(" number ")"
//! predicate   := and_expr ( OR and_expr )*
//! and_expr    := unary ( AND unary )*
//! unary       := NOT unary | "(" predicate ")" | call | TRUE | FALSE
//! expressions := expression ( "," expression )*
//! expression  := call | ident "." ident | string | number | TRUE | FALSE | NULL
//! call        := ident "(" [ expressions ] ")"
//! ```
//! `AND` and `OR` group to the left; `AND` binds tighter than `OR`.

use vstd::prelude::*;
use crate::ast::{ExprV, PredV, OpV, QueryV, Expression, PredicateExpr, FunctionCall, Operator, JoinClause, SoftQLQuery, exprs_view, expr_view, pred_view};
use crate::lexer::{Token, TokV, toks_view, lex_from, tokenize};

verus! {

/// A sub-parse that ended at `j` has consumed input after `i`.
pub open spec fn progress(i: int, j: int, n: nat) -> bool {
    i < j <= n
}

/// `name ( args )` at `i`: the name and arguments, with the position after `)`.
pub open spec fn p_call(ts: Seq<TokV>, i: int) -> Option<((Seq<char>, Seq<ExprV>), int)>
    decreases ts.len() - i, 2nat,
{
    if 0 <= i && i + 1 < ts.len() && ts[i + 1] is LParen {
        match ts[i] {
            TokV::Ident(name) => if i + 2 < ts.len() && ts[i + 2] is RParen {
                Some(((name, Seq::empty()), i + 3))
            } else {
                match p_exprs(ts, i + 2) {
                    Some((args, j)) => if progress(i, j, ts.len()) && j < ts.len()
                        && ts[j] is RParen {
                        Some(((name, args), j + 1))
                    } else {
                        None
                    },
                    None => None,
                }
            },
            _ => None,
        }
    } else {
        None
    }
}

pub open spec fn p_expr(ts: Seq<TokV>, i: int) -> Option<(ExprV, int)>
    decreases ts.len() - i, 3nat,
{
    if 0 <= i < ts.len() {
        match ts[i] {
            TokV::Ident(a) => if i + 1 < ts.len() && ts[i + 1] is LParen {
                match p_call(ts, i) {
                    Some((c, j)) => Some((ExprV::Call(c.0, c.1), j)),
                    None => None,
                }
            } else if i + 2 < ts.len() && ts[i + 1] is Dot {
                match ts[i + 2] {
                    TokV::Ident(b) => Some((ExprV::Field(a, b), i + 3)),
                    _ => None,
                }
            } else {
                None
            },
            TokV::Str(s) => Some((ExprV::Str(s), i + 1)),
            TokV::Number(s) => Some((ExprV::Num(s), i + 1)),
            TokV::True => Some((ExprV::Bool(true), i + 1)),
            TokV::False => Some((ExprV::Bool(false), i + 1)),
            TokV::Null => Some((ExprV::Null, i + 1)),
            _ => None,
        }
    } else {
        None
    }
}

/// One or more expressions separated by commas.
pub open spec fn p_exprs(ts: Seq<TokV>, i: int) -> Option<(Seq<ExprV>, int)>
    decreases ts.len() - i, 4nat,
{
    match p_expr(ts, i) {
        Some((e, j)) => if !progress(i, j, ts.len()) {
            None
        } else if j < ts.len() && ts[j] is Comma {
            match p_exprs(ts, j + 1) {
                Some((rest, k)) => Some((seq![e] + rest, k)),
                None => None,
            }
        } else {
            Some((seq![e], j))
        },
        None => None,
    }
}

pub open spec fn p_unary(ts: Seq<TokV>, i: int) -> Option<(PredV, int)>
    decreases ts.len() - i, 4nat,
{
    if 0 <= i < ts.len() {
        match ts[i] {
            TokV::Not => match p_unary(ts, i + 1) {
                Some((p, j)) => Some((PredV::Not(Box::new(p)), j)),
                None => None,
            },
            TokV::LParen => match p_or(ts, i + 1) {
                Some((p, j)) => if progress(i, j, ts.len()) && j < ts.len() && ts[j] is RParen {
                    Some((p, j + 1))
                } else {
                    None
                },
                None => None,
            },
            TokV::True => Some((PredV::Bool(true), i + 1)),
            TokV::False => Some((PredV::Bool(false), i + 1)),
            TokV::Ident(_) => match p_call(ts, i) {
                Some((c, j)) => Some((PredV::Call(c.0, c.1), j)),
                None => None,
            },
            _ => None,
        }
    } else {
        None
    }
}

/// The `AND unary` steps after `acc`, folded to the left.
pub open spec fn p_and_tail(ts: Seq<TokV>, i: int, acc: PredV) -> Option<(PredV, int)>
    decreases ts.len() - i, 5nat,
{
    if 0 <= i < ts.len() && ts[i] is And {
        match p_unary(ts, i + 1) {
            Some((b, j)) => if progress(i, j, ts.len()) {
                p_and_tail(ts, j, PredV::And(Box::new(acc), Box::new(b)))
            } else {
                None
            },
            None => None,
        }
    } else {
        Some((acc, i))
    }
}

pub open spec fn p_and(ts: Seq<TokV>, i: int) -> Option<(PredV, int)>
    decreases ts.len() - i, 6nat,
{
    match p_unary(ts, i) {
        Some((a, j)) => if progress(i, j, ts.len()) {
            p_and_tail(ts, j, a)
        } else {
            None
        },
        None => None,
    }
}

/// The `OR and_expr` steps after `acc`, folded to the left.
pub open spec fn p_or_tail(ts: Seq<TokV>, i: int, acc: PredV) -> Option<(PredV, int)>
    decreases ts.len() - i, 7nat,
{
    if 0 <= i < ts.len() && ts[i] is Or {
        match p_and(ts, i + 1) {
            Some((b, j)) => if progress(i, j, ts.len()) {
                p_or_tail(ts, j, PredV::Or(Box::new(acc), Box::new(b)))
            } else {
                None
            },
            None => None,
        }
    } else {
        Some((acc, i))
    }
}

/// A predicate.
pub open spec fn p_or(ts: Seq<TokV>, i: int) -> Option<(PredV, int)>
    decreases ts.len() - i, 8nat,
{
    match p_and(ts, i) {
        Some((a, j)) => if progress(i, j, ts.len()) {
            p_or_tail(ts, j, a)
        } else {
            None
        },
        None => None,
    }
}

/// One `name(...)` operator call at `i`, with the position after its `)`.
pub open spec fn p_op(ts: Seq<TokV>, i: int) -> Option<(OpV, int)> {
    if 0 <= i && i + 2 < ts.len() && ts[i + 1] is LParen {
        match ts[i] {
            TokV::Ident(name) => if name == "join"@ {
                match ts[i + 2] {
                    TokV::Ident(t) => if i + 3 < ts.len() && ts[i + 3] is RParen {
                        Some((OpV::Join(t, None), i + 4))
                    } else if i + 3 < ts.len() && ts[i + 3] is Comma {
                        match p_or(ts, i + 4) {
                            Some((p, j)) => if j < ts.len() && ts[j] is RParen {
                                Some((OpV::Join(t, Some(p)), j + 1))
                            } else {
                                None
                            },
                            None => None,
                        }
                    } else {
                        None
                    },
                    _ => None,
                }
            } else if name == "where"@ || name == "having"@ {
                match p_or(ts, i + 2) {
                    Some((p, j)) => if j < ts.len() && ts[j] is RParen {
                        Some(
                            (
                                if name == "where"@ {
                                    OpV::Filter(p)
                                } else {
                                    OpV::Having(p)
                                },
                                j + 1,
                            ),
                        )
                    } else {
                        None
                    },
                    None => None,
                }
            } else if name == "group"@ {
                match p_expr(ts, i + 2) {
                    Some((e, j)) => if j < ts.len() && ts[j] is RParen {
                        Some((OpV::Group(e), j + 1))
                    } else {
                        None
                    },
                    None => None,
                }
            } else if name == "aggregate"@ || name == "project"@ || name == "order"@ {
                match p_exprs(ts, i + 2) {
                    Some((es, j)) => if j < ts.len() && ts[j] is RParen {
                        Some(
                            (
                                if name == "aggregate"@ {
                                    OpV::Aggregate(es)
                                } else if name == "project"@ {
                                    OpV::Project(es)
                                } else {
                                    OpV::Order(es)
                                },
                                j + 1,
                            ),
                        )
                    } else {
                        None
                    },
                    None => None,
                }
            } else if name == "limit"@ {
                match ts[i + 2] {
                    TokV::Number(x) => if i + 3 < ts.len() && ts[i + 3] is RParen {
                        Some((OpV::Limit(x), i + 4))
                    } else {
                        None
                    },
                    _ => None,
                }
            } else {
                None
            },
            _ => None,
        }
    } else {
        None
    }
}

/// The `.op_call` chain from `i` to the end of the tokens.
pub open spec fn p_chain(ts: Seq<TokV>, i: int) -> Option<Seq<OpV>>
    decreases ts.len() - i,
{
    if i < 0 || i >= ts.len() {
        Some(Seq::empty())
    } else if ts[i] is Dot {
        match p_op(ts, i + 1) {
            Some((op, j)) => if progress(i, j, ts.len()) {
                match p_chain(ts, j) {
                    Some(rest) => Some(seq![op] + rest),
                    None => None,
                }
            } else {
                None
            },
            None => None,
        }
    } else {
        None
    }
}

pub open spec fn p_query(ts: Seq<TokV>) -> Option<QueryV> {
    if ts.len() > 0 {
        match ts[0] {
            TokV::Ident(t) => match p_chain(ts, 1) {
                Some(ops) => Some(QueryV { initial_table: t, operations: ops }),
                None => None,
            },
            _ => None,
        }
    } else {
        None
    }
}

/// The query that the text `s` denotes, if it is well formed.
pub open spec fn parse_softql(s: Seq<char>) -> Option<QueryV> {
    match lex_from(s, 0) {
        Some(ts) => p_query(ts),
        None => None,
    }
}

/// Why a text is not a SoftQL query.
#[derive(Debug, PartialEq, Eq, Clone, Copy, Structural)]
pub enum SoftQLError {
    /// Some character starts no token (a stray symbol, an unclosed quote).
    UnexpectedCharacter,
    /// The tokens do not form a query.
    UnexpectedToken,
}

proof fn lemma_exprs_view(v: Seq<Expression>)
    ensures
        exprs_view(v).len() == v.len(),
        forall|k: int| 0 <= k < v.len() ==> #[trigger] exprs_view(v)[k] == expr_view(v[k]),
    decreases v.len(),
{
    if v.len() > 0 {
        lemma_exprs_view(v.drop_last());
    }
}

proof fn lemma_exprs_view_prepend(e: Expression, v: Seq<Expression>)
    ensures
        exprs_view(seq![e] + v) == seq![expr_view(e)] + exprs_view(v),
{
    lemma_exprs_view(seq![e] + v);
    lemma_exprs_view(v);
    assert(exprs_view(seq![e] + v) =~= seq![expr_view(e)] + exprs_view(v));
}

proof fn lemma_exprs_view_one(e: Expression)
    ensures
        exprs_view(seq![e]) == seq![expr_view(e)],
{
    lemma_exprs_view(seq![e]);
    assert(exprs_view(seq![e]) =~= seq![expr_view(e)]);
}

fn is_lparen(ts: &Vec<Token>, i: usize) -> (r: bool)
    ensures
        r == (i < ts@.len() && ts@[i as int]@ is LParen),
{
    i < ts.len() && matches!(ts[i], Token::LParen)
}

fn is_rparen(ts: &Vec<Token>, i: usize) -> (r: bool)
    ensures
        r == (i < ts@.len() && ts@[i as int]@ is RParen),
{
    i < ts.len() && matches!(ts[i], Token::RParen)
}

fn is_comma(ts: &Vec<Token>, i: usize) -> (r: bool)
    ensures
        r == (i < ts@.len() && ts@[i as int]@ is Comma),
{
    i < ts.len() && matches!(ts[i], Token::Comma)
}

fn parse_call(ts: &Vec<Token>, i: usize) -> (r: Option<(FunctionCall, usize)>)
    ensures
        match r {
            Some((c, j)) => p_call(toks_view(ts@), i as int) == Some(
                ((c.name@, exprs_view(c.args@)), j as int),
            ),
            None => p_call(toks_view(ts@), i as int) is None,
        },
    decreases ts@.len() - i, 2nat,
{
    let ghost tv = toks_view(ts@);
    let n = ts.len();
    if i < n && i + 1 < n && is_lparen(ts, i + 1) {
        match &ts[i] {
            Token::Ident(name) => {
                if i + 2 < n && is_rparen(ts, i + 2) {
                    let args: Vec<Expression> = Vec::new();
                    proof {
                        assert(exprs_view(args@) =~= Seq::<ExprV>::empty());
                    }
                    Some((FunctionCall { name: name.clone(), args }, i + 3))
                } else {
                    match parse_exprs(ts, i + 2) {
                        Some((args, j)) => {
                            if i < j && j <= n && is_rparen(ts, j) {
                                Some((FunctionCall { name: name.clone(), args }, j + 1))
                            } else {
                                None
                            }
                        },
                        None => None,
                    }
                }
            },
            _ => None,
        }
    } else {
        None
    }
}

fn parse_expr(ts: &Vec<Token>, i: usize) -> (r: Option<(Expression, usize)>)
    ensures
        match r {
            Some((e, j)) => p_expr(toks_view(ts@), i as int) == Some((e@, j as int)),
            None => p_expr(toks_view(ts@), i as int) is None,
        },
    decreases ts@.len() - i, 3nat,
{
    let n = ts.len();
    if i >= n {
        return None;
    }
    match &ts[i] {
        Token::Ident(a) => {
            if i + 1 < n && is_lparen(ts, i + 1) {
                match parse_call(ts, i) {
                    Some((c, j)) => Some((Expression::FunctionCall(c), j)),
                    None => None,
                }
            } else if i + 1 < n && i + 2 < n && matches!(ts[i + 1], Token::Dot) {
                match &ts[i + 2] {
                    Token::Ident(b) => Some((Expression::TableField(a.clone(), b.clone()), i + 3)),
                    _ => None,
                }
            } else {
                None
            }
        },
        Token::Str(s) => Some((Expression::StringLiteral(s.clone()), i + 1)),
        Token::Number(s) => Some((Expression::NumberLiteral(s.clone()), i + 1)),
        Token::True => Some((Expression::BoolLiteral(true), i + 1)),
        Token::False => Some((Expression::BoolLiteral(false), i + 1)),
        Token::Null => Some((Expression::NullLiteral, i + 1)),
        _ => None,
    }
}

fn parse_exprs(ts: &Vec<Token>, i: usize) -> (r: Option<(Vec<Expression>, usize)>)
    ensures
        match r {
            Some((es, j)) => p_exprs(toks_view(ts@), i as int) == Some(
                (exprs_view(es@), j as int),
            ),
            None => p_exprs(toks_view(ts@), i as int) is None,
        },
    decreases ts@.len() - i, 4nat,
{
    let n = ts.len();
    match parse_expr(ts, i) {
        Some((e, j)) => {
            if !(i < j && j <= n) {
                None
            } else if is_comma(ts, j) {
                match parse_exprs(ts, j + 1) {
                    Some((rest, k)) => {
                        let ghost old_rest = rest@;
                        let mut rest = rest;
                        rest.insert(0, e);
                        proof {
                            assert(rest@ =~= seq![e] + old_rest);
                            lemma_exprs_view_prepend(e, old_rest);
                        }
                        Some((rest, k))
                    },
                    None => None,
                }
            } else {
                let v = vec![e];
                proof {
                    assert(v@ =~= seq![e]);
                    lemma_exprs_view_one(e);
                }
                Some((v, j))
            }
        },
        None => None,
    }
}

fn parse_unary(ts: &Vec<Token>, i: usize) -> (r: Option<(PredicateExpr, usize)>)
    ensures
        match r {
            Some((p, j)) => p_unary(toks_view(ts@), i as int) == Some((p@, j as int)),
            None => p_unary(toks_view(ts@), i as int) is None,
        },
    decreases ts@.len() - i, 4nat,
{
    let n = ts.len();
    if i >= n {
        return None;
    }
    match &ts[i] {
        Token::Not => match parse_unary(ts, i + 1) {
            Some((p, j)) => Some((PredicateExpr::Not(Box::new(p)), j)),
            None => None,
        },
        Token::LParen => match parse_or(ts, i + 1) {
            Some((p, j)) => {
                if i < j && j <= n && is_rparen(ts, j) {
                    Some((p, j + 1))
                } else {
                    None
                }
            },
            None => None,
        },
        Token::True => Some((PredicateExpr::BoolLiteral(true), i + 1)),
        Token::False => Some((PredicateExpr::BoolLiteral(false), i + 1)),
        Token::Ident(_) => match parse_call(ts, i) {
            Some((c, j)) => Some((PredicateExpr::FuncCall(c), j)),
            None => None,
        },
        _ => None,
    }
}

fn parse_and_tail(ts: &Vec<Token>, i: usize, acc: PredicateExpr) -> (r: Option<
    (PredicateExpr, usize),
>)
    ensures
        match r {
            Some((p, j)) => p_and_tail(toks_view(ts@), i as int, acc@) == Some((p@, j as int)),
            None => p_and_tail(toks_view(ts@), i as int, acc@) is None,
        },
    decreases ts@.len() - i, 5nat,
{
    let n = ts.len();
    if i < n && matches!(ts[i], Token::And) {
        match parse_unary(ts, i + 1) {
            Some((b, j)) => {
                if i < j && j <= n {
                    parse_and_tail(ts, j, PredicateExpr::And(Box::new(acc), Box::new(b)))
                } else {
                    None
                }
            },
            None => None,
        }
    } else {
        Some((acc, i))
    }
}

fn parse_and(ts: &Vec<Token>, i: usize) -> (r: Option<(PredicateExpr, usize)>)
    ensures
        match r {
            Some((p, j)) => p_and(toks_view(ts@), i as int) == Some((p@, j as int)),
            None => p_and(toks_view(ts@), i as int) is None,
        },
    decreases ts@.len() - i, 6nat,
{
    let n = ts.len();
    match parse_unary(ts, i) {
        Some((a, j)) => {
            if i < j && j <= n {
                parse_and_tail(ts, j, a)
            } else {
                None
            }
        },
        None => None,
    }
}

fn parse_or_tail(ts: &Vec<Token>, i: usize, acc: PredicateExpr) -> (r: Option<
    (PredicateExpr, usize),
>)
    ensures
        match r {
            Some((p, j)) => p_or_tail(toks_view(ts@), i as int, acc@) == Some((p@, j as int)),
            None => p_or_tail(toks_view(ts@), i as int, acc@) is None,
        },
    decreases ts@.len() - i, 7nat,
{
    let n = ts.len();
    if i < n && matches!(ts[i], Token::Or) {
        match parse_and(ts, i + 1) {
            Some((b, j)) => {
                if i < j && j <= n {
                    parse_or_tail(ts, j, PredicateExpr::Or(Box::new(acc), Box::new(b)))
                } else {
                    None
                }
            },
            None => None,
        }
    } else {
        Some((acc, i))
    }
}

fn parse_or(ts: &Vec<Token>, i: usize) -> (r: Option<(PredicateExpr, usize)>)
    ensures
        match r {
            Some((p, j)) => p_or(toks_view(ts@), i as int) == Some((p@, j as int)),
            None => p_or(toks_view(ts@), i as int) is None,
        },
    decreases ts@.len() - i, 8nat,
{
    let n = ts.len();
    match parse_and(ts, i) {
        Some((a, j)) => {
            if i < j && j <= n {
                parse_or_tail(ts, j, a)
            } else {
                None
            }
        },
        None => None,
    }
}

/// Whether `a` and `b` hold the same characters.
pub fn same_text(a: &str, b: &str) -> (r: bool)
    ensures
        r == (a@ == b@),
{
    let n = a.unicode_len();
    if n != b.unicode_len() {
        return false;
    }
    let mut k: usize = 0;
    while k < n
        invariant
            n == a@.len(),
            n == b@.len(),
            k <= n,
            forall|m: int| 0 <= m < k ==> a@[m] == b@[m],
        decreases n - k,
    {
        if a.get_char(k) != b.get_char(k) {
            return false;
        }
        k = k + 1;
    }
    proof {
        assert(a@ =~= b@);
    }
    true
}

/// The predicate of a `where`, `having` or `join` call at `i`, which must be
/// followed by `)`.
fn parse_closed_predicate(ts: &Vec<Token>, i: usize) -> (r: Option<(PredicateExpr, usize)>)
    ensures
        match r {
            Some((p, j)) => match p_or(toks_view(ts@), i as int) {
                Some((q, k)) => q == p@ && k < ts@.len() && toks_view(ts@)[k] is RParen && j
                    == k + 1,
                None => false,
            },
            None => match p_or(toks_view(ts@), i as int) {
                Some((_, k)) => !(k < ts@.len() && toks_view(ts@)[k] is RParen),
                None => true,
            },
        },
{
    let n = ts.len();
    match parse_or(ts, i) {
        Some((p, j)) => {
            if j < n && is_rparen(ts, j) {
                Some((p, j + 1))
            } else {
                None
            }
        },
        None => None,
    }
}

fn parse_op(ts: &Vec<Token>, i: usize) -> (r: Option<(Operator, usize)>)
    ensures
        match r {
            Some((op, j)) => p_op(toks_view(ts@), i as int) == Some((op@, j as int)),
            None => p_op(toks_view(ts@), i as int) is None,
        },
{
    let ghost tv = toks_view(ts@);
    let n = ts.len();
    if !(i < n && i + 1 < n && i + 2 < n && is_lparen(ts, i + 1)) {
        return None;
    }
    let name = match &ts[i] {
        Token::Ident(name) => name.as_str(),
        _ => {
            return None;
        },
    };
    if same_text(name, "join") {
        match &ts[i + 2] {
            Token::Ident(t) => {
                if i + 3 < n && is_rparen(ts, i + 3) {
                    Some((Operator::Join(JoinClause { table: t.clone(), predicate: None }), i + 4))
                } else if i + 3 < n && is_comma(ts, i + 3) {
                    match parse_closed_predicate(ts, i + 4) {
                        Some((p, j)) => Some(
                            (Operator::Join(JoinClause { table: t.clone(), predicate: Some(p) }), j),
                        ),
                        None => None,
                    }
                } else {
                    None
                }
            },
            _ => None,
        }
    } else if same_text(name, "where") || same_text(name, "having") {
        match parse_closed_predicate(ts, i + 2) {
            Some((p, j)) => {
                if same_text(name, "where") {
                    Some((Operator::Filter(p), j))
                } else {
                    Some((Operator::Having(p), j))
                }
            },
            None => None,
        }
    } else if same_text(name, "group") {
        match parse_expr(ts, i + 2) {
            Some((e, j)) => {
                if j < n && is_rparen(ts, j) {
                    Some((Operator::Group(e), j + 1))
                } else {
                    None
                }
            },
            None => None,
        }
    } else if same_text(name, "aggregate") || same_text(name, "project") || same_text(
        name,
        "order",
    ) {
        match parse_exprs(ts, i + 2) {
            Some((es, j)) => {
                if j < n && is_rparen(ts, j) {
                    if same_text(name, "aggregate") {
                        Some((Operator::Aggregate(es), j + 1))
                    } else if same_text(name, "project") {
                        Some((Operator::Project(es), j + 1))
                    } else {
                        Some((Operator::Order(es), j + 1))
                    }
                } else {
                    None
                }
            },
            None => None,
        }
    } else if same_text(name, "limit") {
        match &ts[i + 2] {
            Token::Number(x) => {
                if i + 3 < n && is_rparen(ts, i + 3) {
                    Some((Operator::Limit(x.clone()), i + 4))
                } else {
                    None
                }
            },
            _ => None,
        }
    } else {
        None
    }
}

fn parse_chain(ts: &Vec<Token>, i: usize) -> (r: Option<Vec<Operator>>)
    ensures
        match r {
            Some(ops) => p_chain(toks_view(ts@), i as int) == Some(
                ops@.map_values(|o: Operator| o@),
            ),
            None => p_chain(toks_view(ts@), i as int) is None,
        },
    decreases ts@.len() - i,
{
    let n = ts.len();
    if i >= n {
        let ops: Vec<Operator> = Vec::new();
        proof {
            assert(ops@.map_values(|o: Operator| o@) =~= Seq::<OpV>::empty());
        }
        return Some(ops);
    }
    if !matches!(ts[i], Token::Dot) || i + 1 >= n {
        return None;
    }
    match parse_op(ts, i + 1) {
        Some((op, j)) => {
            if !(i < j && j <= n) {
                return None;
            }
            match parse_chain(ts, j) {
                Some(rest) => {
                    let ghost old_rest = rest@;
                    let mut rest = rest;
                    rest.insert(0, op);
                    proof {
                        assert(rest@.map_values(|o: Operator| o@) =~= seq![op@]
                            + old_rest.map_values(|o: Operator| o@));
                    }
                    Some(rest)
                },
                None => None,
            }
        },
        None => None,
    }
}

/// Parses a SoftQL query. Succeeds exactly on the texts that the grammar
/// describes, with the tree that it assigns them.
pub fn static_parse_softql(input: &str) -> (r: Result<SoftQLQuery, SoftQLError>)
    ensures
        match r {
            Ok(q) => parse_softql(input@) == Some(q@),
            Err(SoftQLError::UnexpectedCharacter) => lex_from(input@, 0) is None,
            Err(SoftQLError::UnexpectedToken) => lex_from(input@, 0) is Some && parse_softql(
                input@,
            ) is None,
        },
{
    let ts = match tokenize(input) {
        Some(ts) => ts,
        None => {
            return Err(SoftQLError::UnexpectedCharacter);
        },
    };
    if ts.len() == 0 {
        return Err(SoftQLError::UnexpectedToken);
    }
    let initial_table = match &ts[0] {
        Token::Ident(t) => t.clone(),
        _ => {
            return Err(SoftQLError::UnexpectedToken);
        },
    };
    match parse_chain(&ts, 1) {
        Some(operations) => Ok(SoftQLQuery { initial_table, operations }),
        None => Err(SoftQLError::UnexpectedToken),
    }
}

/// The SoftQL parser.
#[derive(Debug)]
pub struct SoftQLParser;

impl SoftQLParser {
    /// Parses a SoftQL query (see `static_parse_softql`).
    pub fn parse(input: &str) -> (r: Result<SoftQLQuery, SoftQLError>)
        ensures
            match r {
                Ok(q) => parse_softql(input@) == Some(q@),
                Err(SoftQLError::UnexpectedCharacter) => lex_from(input@, 0) is None,
                Err(SoftQLError::UnexpectedToken) => lex_from(input@, 0) is Some && parse_softql(input@) is None,
            },
    {
        static_parse_softql(input)
    }
}

} // verus!
