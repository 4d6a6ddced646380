//! The SoftQL syntax tree and its mathematical model.

use vstd::prelude::*;

verus! {

/// A chained SoftQL query: a starting table followed by operator calls.
#[derive(Debug, PartialEq, Eq)]
pub struct SoftQLQuery {
    pub initial_table: String,
    pub operations: Vec<Operator>,
}

/// One `.name(...)` call of a query chain.
#[derive(Debug, PartialEq, Eq)]
pub enum Operator {
    Join(JoinClause),
    /// `.where(...)`
    Filter(PredicateExpr),
    Group(Expression),
    Having(PredicateExpr),
    Aggregate(Vec<Expression>),
    Project(Vec<Expression>),
    Order(Vec<Expression>),
    /// The number literal as written.
    Limit(String),
}

#[derive(Debug, PartialEq, Eq)]
pub struct JoinClause {
    pub table: String,
    pub predicate: Option<PredicateExpr>,
}

#[derive(Debug, PartialEq, Eq)]
pub enum PredicateExpr {
    And(Box<PredicateExpr>, Box<PredicateExpr>),
    Or(Box<PredicateExpr>, Box<PredicateExpr>),
    Not(Box<PredicateExpr>),
    FuncCall(FunctionCall),
    BoolLiteral(bool),
}

#[derive(Debug, PartialEq, Eq)]
pub struct FunctionCall {
    pub name: String,
    pub args: Vec<Expression>,
}

#[derive(Debug, PartialEq, Eq)]
pub enum Expression {
    FunctionCall(FunctionCall),
    TableField(String, String),
    StringLiteral(String),
    NumberLiteral(String),
    BoolLiteral(bool),
    NullLiteral,
}

/// Model of an [`Expression`].
pub enum ExprV {
    Call(Seq<char>, Seq<ExprV>),
    Field(Seq<char>, Seq<char>),
    Str(Seq<char>),
    Num(Seq<char>),
    Bool(bool),
    Null,
}

/// Model of a [`PredicateExpr`].
pub enum PredV {
    And(Box<PredV>, Box<PredV>),
    Or(Box<PredV>, Box<PredV>),
    Not(Box<PredV>),
    Call(Seq<char>, Seq<ExprV>),
    Bool(bool),
}

/// Model of an [`Operator`].
pub enum OpV {
    Join(Seq<char>, Option<PredV>),
    Filter(PredV),
    Group(ExprV),
    Having(PredV),
    Aggregate(Seq<ExprV>),
    Project(Seq<ExprV>),
    Order(Seq<ExprV>),
    Limit(Seq<char>),
}

/// Model of a [`SoftQLQuery`].
pub struct QueryV {
    pub initial_table: Seq<char>,
    pub operations: Seq<OpV>,
}

pub open spec fn exprs_view(v: Seq<Expression>) -> Seq<ExprV>
    decreases v,
{
    if v.len() == 0 {
        Seq::empty()
    } else {
        exprs_view(v.drop_last()).push(expr_view(v.last()))
    }
}

pub open spec fn expr_view(e: Expression) -> ExprV
    decreases e,
{
    match e {
        Expression::FunctionCall(c) => ExprV::Call(c.name@, exprs_view(c.args@)),
        Expression::TableField(t, c) => ExprV::Field(t@, c@),
        Expression::StringLiteral(s) => ExprV::Str(s@),
        Expression::NumberLiteral(s) => ExprV::Num(s@),
        Expression::BoolLiteral(b) => ExprV::Bool(b),
        Expression::NullLiteral => ExprV::Null,
    }
}

pub open spec fn pred_view(p: PredicateExpr) -> PredV
    decreases p,
{
    match p {
        PredicateExpr::And(a, b) => PredV::And(Box::new(pred_view(*a)), Box::new(pred_view(*b))),
        PredicateExpr::Or(a, b) => PredV::Or(Box::new(pred_view(*a)), Box::new(pred_view(*b))),
        PredicateExpr::Not(a) => PredV::Not(Box::new(pred_view(*a))),
        PredicateExpr::FuncCall(c) => PredV::Call(c.name@, exprs_view(c.args@)),
        PredicateExpr::BoolLiteral(b) => PredV::Bool(b),
    }
}

impl View for Expression {
    type V = ExprV;

    open spec fn view(&self) -> ExprV {
        expr_view(*self)
    }
}

impl View for PredicateExpr {
    type V = PredV;

    open spec fn view(&self) -> PredV {
        pred_view(*self)
    }
}

impl View for Operator {
    type V = OpV;

    open spec fn view(&self) -> OpV {
        match *self {
            Operator::Join(j) => OpV::Join(
                j.table@,
                match j.predicate {
                    Some(p) => Some(pred_view(p)),
                    None => None,
                },
            ),
            Operator::Filter(p) => OpV::Filter(pred_view(p)),
            Operator::Group(e) => OpV::Group(expr_view(e)),
            Operator::Having(p) => OpV::Having(pred_view(p)),
            Operator::Aggregate(v) => OpV::Aggregate(exprs_view(v@)),
            Operator::Project(v) => OpV::Project(exprs_view(v@)),
            Operator::Order(v) => OpV::Order(exprs_view(v@)),
            Operator::Limit(s) => OpV::Limit(s@),
        }
    }
}

impl View for SoftQLQuery {
    type V = QueryV;

    open spec fn view(&self) -> QueryV {
        QueryV {
            initial_table: self.initial_table@,
            operations: self.operations@.map_values(|o: Operator| o@),
        }
    }
}

/// The column name a select-list expression gets: the field of a table
/// field, the text of a literal, the name of a call.
pub open spec fn alias_of(e: ExprV) -> Seq<char> {
    match e {
        ExprV::Field(_, f) => f,
        ExprV::Str(s) => s,
        ExprV::Num(n) => n,
        ExprV::Bool(b) => if b {
            "true"@
        } else {
            "false"@
        },
        ExprV::Null => "null"@,
        ExprV::Call(n, _) => n,
    }
}

/// The column name a select-list expression gets.
pub fn infer_alias(e: &Expression) -> (r: String)
    ensures
        r@ == alias_of(e@),
{
    match e {
        Expression::TableField(_, f) => f.clone(),
        Expression::StringLiteral(s) => s.clone(),
        Expression::NumberLiteral(n) => n.clone(),
        Expression::BoolLiteral(b) => if *b {
            "true".to_owned()
        } else {
            "false".to_owned()
        },
        Expression::NullLiteral => "null".to_owned(),
        Expression::FunctionCall(f) => f.name.clone(),
    }
}

/// What a SoftQL call name resolves to in the catalog.
#[derive(Debug)]
pub enum ResolvedCall {
    /// An operator, with its symbol and its kind as the catalog gives it.
    Operator { symbol: String, kind: char },
    Function { schema: String, func: String },
}

} // verus!
