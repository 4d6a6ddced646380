//! Walkers that find the sites the generators work on.

use vstd::prelude::*;
use crate::catalog::ColumnOperand;
use crate::mutate::{names_table, OperandPosition};
use crate::tree::{ColumnRef, Expr, ExprV, Select, TableInfo, TableV, exprs_v, lemma_exprs_v, strings_view};

verus! {

/// A `column = 'literal'` (or `'literal' = column`) equality of a `WHERE`.
#[derive(Debug)]
pub struct EqualityLiteral {
    pub fields: Vec<String>,
    pub literal: String,
    /// Location of the literal.
    pub location: i32,
}

/// The column fields, literal and literal location of every equality
/// between a column and a string constant that `e` joins by `AND`, left to
/// right.
pub open spec fn equalities_v(e: ExprV) -> Seq<(Seq<Seq<char>>, Seq<char>, i32)>
    decreases e,
{
    match e {
        ExprV::And(a, b) => equalities_v(*a) + equalities_v(*b),
        ExprV::Op(n, a, b, _) => if n == "="@ {
            match (*a, *b) {
                (ExprV::Column(c), ExprV::Text(s, l)) => seq![(c.fields, s, l)],
                (ExprV::Text(s, l), ExprV::Column(c)) => seq![(c.fields, s, l)],
                _ => Seq::empty(),
            }
        } else {
            Seq::empty()
        },
        _ => Seq::empty(),
    }
}

pub open spec fn equalities_view(v: Seq<EqualityLiteral>) -> Seq<(Seq<Seq<char>>, Seq<char>, i32)> {
    v.map_values(|q: EqualityLiteral| (strings_view(q.fields@), q.literal@, q.location))
}

fn copy_fields(c: &ColumnRef) -> (r: Vec<String>)
    ensures
        strings_view(r@) == strings_view(c.fields@),
{
    let mut r: Vec<String> = Vec::new();
    let mut i: usize = 0;
    while i < c.fields.len()
        invariant
            i <= c.fields@.len(),
            r@.len() == i,
            forall|k: int| 0 <= k < i ==> r@[k]@ == c.fields@[k]@,
        decreases c.fields@.len() - i,
    {
        r.push(c.fields[i].clone());
        i = i + 1;
    }
    proof {
        assert(strings_view(r@) =~= strings_view(c.fields@));
    }
    r
}

fn is_eq_sign(n: &String) -> (r: bool)
    ensures
        r == (n@ == "="@),
{
    crate::parser::same_text(n.as_str(), "=")
}

/// The column/string-constant equalities that `e` joins by `AND`.
pub fn equalities_in(e: &Expr) -> (r: Vec<EqualityLiteral>)
    ensures
        equalities_view(r@) == equalities_v(e@),
    decreases e,
{
    proof {
        reveal_with_fuel(crate::tree::expr_v, 2);
    }
    match e {
        Expr::And(a, b) => {
            let mut l = equalities_in(a);
            let mut r = equalities_in(b);
            let ghost lv = l@;
            let ghost rv = r@;
            l.append(&mut r);
            proof {
                assert(equalities_view(l@) =~= equalities_view(lv) + equalities_view(rv));
            }
            l
        },
        Expr::Op(n, a, b, _) => {
            let mut out: Vec<EqualityLiteral> = Vec::new();
            if is_eq_sign(n) {
                match (&**a, &**b) {
                    (Expr::Column(c), Expr::Text(s, l)) => {
                        out.push(EqualityLiteral { fields: copy_fields(c), literal: s.clone(), location: *l });
                    },
                    (Expr::Text(s, l), Expr::Column(c)) => {
                        out.push(EqualityLiteral { fields: copy_fields(c), literal: s.clone(), location: *l });
                    },
                    _ => {},
                }
            }
            proof {
                assert(equalities_view(out@) =~= equalities_v(e@));
            }
            out
        },
        _ => {
            let out: Vec<EqualityLiteral> = Vec::new();
            proof {
                assert(equalities_view(out@) =~= equalities_v(e@));
            }
            out
        },
    }
}

/// The column/string-constant equalities of the statement's `WHERE`.
pub fn find_all_equality_expressions(t: &Select) -> (r: Vec<EqualityLiteral>)
    ensures
        equalities_view(r@) == match t@.where_clause {
            Some(w) => equalities_v(w),
            None => Seq::empty(),
        },
{
    match &t.where_clause {
        Some(w) => equalities_in(w),
        None => {
            let out: Vec<EqualityLiteral> = Vec::new();
            proof {
                assert(equalities_view(out@) =~= Seq::empty());
            }
            out
        },
    }
}

/// The location of the operator or call that an error cursor (1-based)
/// points at: the node whose location plus one is the cursor.
pub fn node_location_for_cursor(cursor: i32) -> (r: Option<i32>)
    ensures
        match r {
            Some(l) => l >= 0 && l + 1 == cursor,
            None => cursor < 1,
        },
{
    if cursor >= 1 {
        Some(cursor - 1)
    } else {
        None
    }
}

/// The table of the first `FROM` entry that `reference` names, as table or
/// as alias.
pub open spec fn actual_table_v(from: Seq<TableV>, reference: Seq<char>) -> Option<Seq<char>>
    decreases from.len(),
{
    if from.len() == 0 {
        None
    } else if names_table(from[0], reference) {
        Some(from[0].table_name)
    } else {
        actual_table_v(from.drop_first(), reference)
    }
}

/// The table that `reference` (a table name or an alias) stands for.
pub fn find_actual_table_name(from: &Vec<TableInfo>, reference: &str) -> (r: Option<String>)
    ensures
        match r {
            Some(t) => actual_table_v(from@.map_values(|x: TableInfo| x@), reference@) == Some(t@),
            None => actual_table_v(from@.map_values(|x: TableInfo| x@), reference@) is None,
        },
{
    let ghost fv = from@.map_values(|x: TableInfo| x@);
    let mut i: usize = 0;
    proof {
        assert(fv.subrange(0, fv.len() as int) =~= fv);
    }
    while i < from.len()
        invariant
            i <= from@.len(),
            fv == from@.map_values(|x: TableInfo| x@),
            actual_table_v(fv, reference@) == actual_table_v(fv.subrange(i as int, fv.len() as int), reference@),
        decreases from@.len() - i,
    {
        let ghost rest = fv.subrange(i as int, fv.len() as int);
        proof {
            assert(rest.drop_first() =~= fv.subrange(i + 1, fv.len() as int));
            assert(rest[0] == from@[i as int]@);
        }
        let e = &from[i];
        let hit = crate::tree::same_name_exec(e.table_name.as_str(), reference) || match &e.alias {
            Some(a) => crate::tree::same_name_exec(a.as_str(), reference),
            None => false,
        };
        if hit {
            return Some(e.table_name.clone());
        }
        i = i + 1;
    }
    None
}

/// The table and column that a column reference denotes in a statement
/// reading `from`: a qualified reference names its table (or alias) first
/// and its column last; an unqualified one is taken to belong to the first
/// `FROM` table.
pub open spec fn table_column_v(from: Seq<TableV>, fields: Seq<Seq<char>>) -> Option<(Seq<char>, Seq<char>)> {
    if fields.len() >= 2 {
        Some(
            (
                match actual_table_v(from, fields[0]) {
                    Some(t) => t,
                    None => fields[0],
                },
                fields.last(),
            ),
        )
    } else if fields.len() == 1 && from.len() > 0 {
        Some((from[0].table_name, fields[0]))
    } else {
        None
    }
}

/// The table and column that the column reference `fields` denotes.
pub fn extract_table_column_from_ref(from: &Vec<TableInfo>, fields: &Vec<String>) -> (r: Option<(String, String)>)
    ensures
        match r {
            Some((t, c)) => table_column_v(from@.map_values(|x: TableInfo| x@), strings_view(fields@)) == Some((t@, c@)),
            None => table_column_v(from@.map_values(|x: TableInfo| x@), strings_view(fields@)) is None,
        },
{
    let n = fields.len();
    if n >= 2 {
        let table = match find_actual_table_name(from, fields[0].as_str()) {
            Some(t) => t,
            None => fields[0].clone(),
        };
        Some((table, fields[n - 1].clone()))
    } else if n == 1 && from.len() > 0 {
        Some((from[0].table_name.clone(), fields[0].clone()))
    } else {
        None
    }
}

/// The column operand that `e` is, if it is a column reference: its
/// qualifier (when qualified) and its column.
pub open spec fn column_operand_v(e: ExprV) -> Seq<(Option<Seq<char>>, Seq<char>)> {
    match e {
        ExprV::Column(c) => if c.fields.len() == 1 {
            seq![(None, c.fields[0])]
        } else if c.fields.len() >= 2 {
            seq![(Some(c.fields[0]), c.fields.last())]
        } else {
            Seq::empty()
        },
        _ => Seq::empty(),
    }
}

/// An operator at `l` is one that `location` selects.
pub open spec fn at_location(l: i32, location: Option<i32>) -> bool {
    match location {
        Some(x) => l == x,
        None => true,
    }
}

fn at_location_exec(l: i32, location: Option<i32>) -> (r: bool)
    ensures
        r == at_location(l, location),
{
    match location {
        Some(x) => l == x,
        None => true,
    }
}

/// A column operand of a binary operator, with its side.
#[derive(Debug)]
pub struct SidedOperand {
    pub position: OperandPosition,
    pub operand: ColumnOperand,
}

pub type SideOpV = (OperandPosition, Option<Seq<char>>, Seq<char>);

pub open spec fn sided_v(p: OperandPosition, ops: Seq<(Option<Seq<char>>, Seq<char>)>) -> Seq<SideOpV> {
    ops.map_values(|o: (Option<Seq<char>>, Seq<char>)| (p, o.0, o.1))
}

pub open spec fn operands_all_v(v: Seq<ExprV>, location: Option<i32>) -> Seq<SideOpV>
    decreases v,
{
    if v.len() == 0 {
        Seq::empty()
    } else {
        operands_all_v(v.drop_last(), location) + operands_at_v(v.last(), location)
    }
}

/// The column operands of every binary operator at `location` (at any
/// location when `None`) within `e`, outermost first, left before right.
pub open spec fn operands_at_v(e: ExprV, location: Option<i32>) -> Seq<SideOpV>
    decreases e,
{
    match e {
        ExprV::Op(_, a, b, l) => (if at_location(l, location) {
            sided_v(OperandPosition::Left, column_operand_v(*a)) + sided_v(
                OperandPosition::Right,
                column_operand_v(*b),
            )
        } else {
            Seq::empty()
        }) + operands_at_v(*a, location) + operands_at_v(*b, location),
        ExprV::And(a, b) => operands_at_v(*a, location) + operands_at_v(*b, location),
        ExprV::Or(a, b) => operands_at_v(*a, location) + operands_at_v(*b, location),
        ExprV::Not(a) => operands_at_v(*a, location),
        ExprV::Cast(a, _) => operands_at_v(*a, location),
        ExprV::Call(_, args, _) => operands_all_v(args, location),
        _ => Seq::empty(),
    }
}

pub open spec fn column_ops_view(v: Seq<ColumnOperand>) -> Seq<(Option<Seq<char>>, Seq<char>)> {
    v.map_values(|o: ColumnOperand| (match o.table_name {
        Some(t) => Some(t@),
        None => None,
    }, o.column_name@))
}

pub open spec fn operands_view(v: Seq<SidedOperand>) -> Seq<SideOpV> {
    v.map_values(|o: SidedOperand| (o.position, match o.operand.table_name {
        Some(t) => Some(t@),
        None => None,
    }, o.operand.column_name@))
}

fn column_operand(e: &Expr) -> (r: Vec<ColumnOperand>)
    ensures
        column_ops_view(r@) == column_operand_v(e@),
{
    let mut r: Vec<ColumnOperand> = Vec::new();
    match e {
        Expr::Column(c) => {
            let n = c.fields.len();
            if n == 1 {
                r.push(ColumnOperand { table_name: None, column_name: c.fields[0].clone() });
            } else if n >= 2 {
                r.push(ColumnOperand { table_name: Some(c.fields[0].clone()), column_name: c.fields[n - 1].clone() });
            }
        },
        _ => {},
    }
    proof {
        assert(column_ops_view(r@) =~= column_operand_v(e@));
    }
    r
}

fn sided_operand(e: &Expr, position: OperandPosition) -> (r: Vec<SidedOperand>)
    ensures
        operands_view(r@) == sided_v(position, column_operand_v(e@)),
{
    let c = column_operand(e);
    let mut r: Vec<SidedOperand> = Vec::new();
    if c.len() > 0 {
        let o = ColumnOperand {
            table_name: match &c[0].table_name {
                Some(t) => Some(t.clone()),
                None => None,
            },
            column_name: c[0].column_name.clone(),
        };
        r.push(SidedOperand { position, operand: o });
    }
    proof {
        assert(column_operand_v(e@).len() <= 1);
        assert(operands_view(r@) =~= sided_v(position, column_operand_v(e@)));
    }
    r
}

fn append_operands(out: &mut Vec<SidedOperand>, more: Vec<SidedOperand>)
    ensures
        operands_view(final(out)@) == operands_view(old(out)@) + operands_view(more@),
{
    let ghost before = out@;
    let mut more = more;
    let ghost m = more@;
    out.append(&mut more);
    proof {
        assert(operands_view(out@) =~= operands_view(before) + operands_view(m));
    }
}

/// The column operands of every binary operator at `location` within `e`.
pub fn operands_at(e: &Expr, location: Option<i32>) -> (r: Vec<SidedOperand>)
    ensures
        operands_view(r@) == operands_at_v(e@, location),
    decreases e,
{
    let mut out: Vec<SidedOperand> = Vec::new();
    proof {
        assert(operands_view(out@) =~= Seq::empty());
    }
    match e {
        Expr::Op(_, a, b, l) => {
            if at_location_exec(*l, location) {
                append_operands(&mut out, sided_operand(a, OperandPosition::Left));
                append_operands(&mut out, sided_operand(b, OperandPosition::Right));
            }
            append_operands(&mut out, operands_at(a, location));
            append_operands(&mut out, operands_at(b, location));
            proof {
                assert(operands_view(out@) =~= operands_at_v(e@, location));
            }
        },
        Expr::And(a, b) | Expr::Or(a, b) => {
            append_operands(&mut out, operands_at(a, location));
            append_operands(&mut out, operands_at(b, location));
            proof {
                assert(operands_view(out@) =~= operands_at_v(e@, location));
            }
        },
        Expr::Not(a) | Expr::Cast(a, _) => {
            append_operands(&mut out, operands_at(a, location));
            proof {
                assert(operands_view(out@) =~= operands_at_v(e@, location));
            }
        },
        Expr::Call(_, args, _) => {
            append_operands(&mut out, operands_all(args, location));
            proof {
                assert(operands_view(out@) =~= operands_at_v(e@, location));
            }
        },
        _ => {
            proof {
                assert(operands_view(out@) =~= operands_at_v(e@, location));
            }
        },
    }
    out
}

/// The column operands of every binary operator at `location` within the
/// elements of `v`, in order.
pub fn operands_all(v: &Vec<Expr>, location: Option<i32>) -> (r: Vec<SidedOperand>)
    ensures
        operands_view(r@) == operands_all_v(exprs_v(v@), location),
    decreases v,
{
    let mut out: Vec<SidedOperand> = Vec::new();
    proof {
        lemma_exprs_v(v@);
        assert(operands_view(out@) =~= operands_all_v(exprs_v(v@).subrange(0, 0), location));
    }
    let mut i: usize = 0;
    while i < v.len()
        invariant
            i <= v@.len(),
            exprs_v(v@).len() == v@.len(),
            forall|k: int| 0 <= k < v@.len() ==> #[trigger] exprs_v(v@)[k] == crate::tree::expr_v(v@[k]),
            operands_view(out@) == operands_all_v(exprs_v(v@).subrange(0, i as int), location),
        decreases v@.len() - i,
    {
        proof {
            assert(decreases_to!(v => v@[i as int]));
            let p = exprs_v(v@).subrange(0, i + 1);
            assert(p.drop_last() =~= exprs_v(v@).subrange(0, i as int));
        }
        append_operands(&mut out, operands_at(&v[i], location));
        i = i + 1;
    }
    proof {
        assert(exprs_v(v@).subrange(0, v@.len() as int) =~= exprs_v(v@));
    }
    out
}

/// The column operands of the operator at `location`, in the select list
/// and then in `WHERE`.
pub fn operands_in_statement(t: &Select, location: i32) -> (r: Vec<SidedOperand>)
    ensures
        operands_view(r@) == operands_all_v(t@.targets, Some(location)) + match t@.where_clause {
            Some(w) => operands_at_v(w, Some(location)),
            None => Seq::empty(),
        },
{
    let mut out = operands_all(&t.targets, Some(location));
    match &t.where_clause {
        Some(w) => append_operands(&mut out, operands_at(w, Some(location))),
        None => {
            proof {
                assert(operands_view(out@) + Seq::empty() =~= operands_view(out@));
            }
        },
    }
    out
}

/// The column operands of every binary operator of the `WHERE` clause.
pub fn where_operands(t: &Select) -> (r: Vec<SidedOperand>)
    ensures
        operands_view(r@) == match t@.where_clause {
            Some(w) => operands_at_v(w, None),
            None => Seq::empty(),
        },
{
    match &t.where_clause {
        Some(w) => operands_at(w, None),
        None => {
            let out: Vec<SidedOperand> = Vec::new();
            proof {
                assert(operands_view(out@) =~= Seq::empty());
            }
            out
        },
    }
}

/// A column argument of a call: its position and the column.
#[derive(Debug)]
pub struct ArgumentOperand {
    pub index: usize,
    pub operand: ColumnOperand,
}

pub type ArgOpV = (nat, Option<Seq<char>>, Seq<char>);

pub open spec fn arg_ops_view(v: Seq<ArgumentOperand>) -> Seq<ArgOpV> {
    v.map_values(|a: ArgumentOperand| (a.index as nat, match a.operand.table_name {
        Some(t) => Some(t@),
        None => None,
    }, a.operand.column_name@))
}

/// The column arguments of `args`, with their positions, in order.
pub open spec fn indexed_ops_v(args: Seq<ExprV>) -> Seq<ArgOpV>
    decreases args.len(),
{
    if args.len() == 0 {
        Seq::empty()
    } else {
        indexed_ops_v(args.drop_last()) + column_operand_v(args.last()).map_values(
            |o: (Option<Seq<char>>, Seq<char>)| ((args.len() - 1) as nat, o.0, o.1),
        )
    }
}

pub open spec fn call_args_all_v(v: Seq<ExprV>, location: i32) -> Seq<ArgOpV>
    decreases v,
{
    if v.len() == 0 {
        Seq::empty()
    } else {
        call_args_all_v(v.drop_last(), location) + call_args_at_v(v.last(), location)
    }
}

/// The column arguments, with positions, of every call at `location` within
/// `e`, outermost first.
pub open spec fn call_args_at_v(e: ExprV, location: i32) -> Seq<ArgOpV>
    decreases e,
{
    match e {
        ExprV::Op(_, a, b, _) => call_args_at_v(*a, location) + call_args_at_v(*b, location),
        ExprV::And(a, b) => call_args_at_v(*a, location) + call_args_at_v(*b, location),
        ExprV::Or(a, b) => call_args_at_v(*a, location) + call_args_at_v(*b, location),
        ExprV::Not(a) => call_args_at_v(*a, location),
        ExprV::Cast(a, _) => call_args_at_v(*a, location),
        ExprV::Call(_, args, l) => (if l == location {
            indexed_ops_v(args)
        } else {
            Seq::empty()
        }) + call_args_all_v(args, location),
        _ => Seq::empty(),
    }
}

fn append_args(out: &mut Vec<ArgumentOperand>, more: Vec<ArgumentOperand>)
    ensures
        arg_ops_view(final(out)@) == arg_ops_view(old(out)@) + arg_ops_view(more@),
{
    let ghost before = out@;
    let mut more = more;
    let ghost m = more@;
    out.append(&mut more);
    proof {
        assert(arg_ops_view(out@) =~= arg_ops_view(before) + arg_ops_view(m));
    }
}

fn indexed_operands(args: &Vec<Expr>) -> (r: Vec<ArgumentOperand>)
    ensures
        arg_ops_view(r@) == indexed_ops_v(exprs_v(args@)),
{
    let mut out: Vec<ArgumentOperand> = Vec::new();
    proof {
        lemma_exprs_v(args@);
        assert(arg_ops_view(out@) =~= indexed_ops_v(exprs_v(args@).subrange(0, 0)));
    }
    let mut i: usize = 0;
    while i < args.len()
        invariant
            i <= args@.len(),
            exprs_v(args@).len() == args@.len(),
            forall|k: int| 0 <= k < args@.len() ==> #[trigger] exprs_v(args@)[k] == crate::tree::expr_v(args@[k]),
            arg_ops_view(out@) == indexed_ops_v(exprs_v(args@).subrange(0, i as int)),
        decreases args@.len() - i,
    {
        let ghost p = exprs_v(args@).subrange(0, i + 1);
        proof {
            assert(p.drop_last() =~= exprs_v(args@).subrange(0, i as int));
            assert(p.last() == crate::tree::expr_v(args@[i as int]));
        }
        let c = column_operand(&args[i]);
        let ghost before = out@;
        let ghost cv = column_operand_v(p.last());
        if c.len() > 0 {
            let o = ColumnOperand {
                table_name: match &c[0].table_name {
                    Some(t) => Some(t.clone()),
                    None => None,
                },
                column_name: c[0].column_name.clone(),
            };
            out.push(ArgumentOperand { index: i, operand: o });
        }
        proof {
            assert(cv.len() <= 1);
            assert(arg_ops_view(out@) =~= arg_ops_view(before) + cv.map_values(
                |o: (Option<Seq<char>>, Seq<char>)| ((p.len() - 1) as nat, o.0, o.1),
            ));
        }
        i = i + 1;
    }
    proof {
        assert(exprs_v(args@).subrange(0, args@.len() as int) =~= exprs_v(args@));
    }
    out
}

/// The column arguments, with positions, of every call at `location` within `e`.
pub fn call_arguments_at(e: &Expr, location: i32) -> (r: Vec<ArgumentOperand>)
    ensures
        arg_ops_view(r@) == call_args_at_v(e@, location),
    decreases e,
{
    let mut out: Vec<ArgumentOperand> = Vec::new();
    proof {
        assert(arg_ops_view(out@) =~= Seq::empty());
    }
    match e {
        Expr::Op(_, a, b, _) | Expr::And(a, b) | Expr::Or(a, b) => {
            append_args(&mut out, call_arguments_at(a, location));
            append_args(&mut out, call_arguments_at(b, location));
        },
        Expr::Not(a) | Expr::Cast(a, _) => {
            append_args(&mut out, call_arguments_at(a, location));
        },
        Expr::Call(_, args, l) => {
            if *l == location {
                append_args(&mut out, indexed_operands(args));
            }
            append_args(&mut out, call_arguments_all(args, location));
        },
        _ => {},
    }
    proof {
        assert(arg_ops_view(out@) =~= call_args_at_v(e@, location));
    }
    out
}

pub fn call_arguments_all(v: &Vec<Expr>, location: i32) -> (r: Vec<ArgumentOperand>)
    ensures
        arg_ops_view(r@) == call_args_all_v(exprs_v(v@), location),
    decreases v,
{
    let mut out: Vec<ArgumentOperand> = Vec::new();
    proof {
        lemma_exprs_v(v@);
        assert(arg_ops_view(out@) =~= call_args_all_v(exprs_v(v@).subrange(0, 0), location));
    }
    let mut i: usize = 0;
    while i < v.len()
        invariant
            i <= v@.len(),
            exprs_v(v@).len() == v@.len(),
            forall|k: int| 0 <= k < v@.len() ==> #[trigger] exprs_v(v@)[k] == crate::tree::expr_v(v@[k]),
            arg_ops_view(out@) == call_args_all_v(exprs_v(v@).subrange(0, i as int), location),
        decreases v@.len() - i,
    {
        proof {
            assert(decreases_to!(v => v@[i as int]));
            let p = exprs_v(v@).subrange(0, i + 1);
            assert(p.drop_last() =~= exprs_v(v@).subrange(0, i as int));
        }
        append_args(&mut out, call_arguments_at(&v[i], location));
        i = i + 1;
    }
    proof {
        assert(exprs_v(v@).subrange(0, v@.len() as int) =~= exprs_v(v@));
    }
    out
}

/// The column arguments, with positions, of the calls at `location` in the
/// select list and then in `WHERE`.
pub fn extract_argument_operands_from_function_call(t: &Select, location: i32) -> (r: Vec<ArgumentOperand>)
    ensures
        arg_ops_view(r@) == call_args_all_v(t@.targets, location) + match t@.where_clause {
            Some(w) => call_args_at_v(w, location),
            None => Seq::empty(),
        },
{
    let mut out = call_arguments_all(&t.targets, location);
    match &t.where_clause {
        Some(w) => append_args(&mut out, call_arguments_at(w, location)),
        None => {
            proof {
                assert(arg_ops_view(out@) + Seq::empty() =~= arg_ops_view(out@));
            }
        },
    }
    out
}

/// A binary operator of a statement: its location and name.
#[derive(Debug)]
pub struct OperatorSite {
    pub location: i32,
    pub operator: String,
}

/// Location and name of every binary operator in `e` outside calls,
/// outermost first, left before right.
pub open spec fn operators_v(e: ExprV) -> Seq<(i32, Seq<char>)>
    decreases e,
{
    match e {
        ExprV::Op(n, a, b, l) => seq![(l, n)] + operators_v(*a) + operators_v(*b),
        ExprV::And(a, b) => operators_v(*a) + operators_v(*b),
        ExprV::Or(a, b) => operators_v(*a) + operators_v(*b),
        ExprV::Not(a) => operators_v(*a),
        ExprV::Cast(a, _) => operators_v(*a),
        _ => Seq::empty(),
    }
}

pub open spec fn sites_view(v: Seq<OperatorSite>) -> Seq<(i32, Seq<char>)> {
    v.map_values(|o: OperatorSite| (o.location, o.operator@))
}

fn operators_in(e: &Expr) -> (r: Vec<OperatorSite>)
    ensures
        sites_view(r@) == operators_v(e@),
    decreases e,
{
    let mut out: Vec<OperatorSite> = Vec::new();
    match e {
        Expr::Op(n, a, b, l) => {
            out.push(OperatorSite { location: *l, operator: n.clone() });
            let mut x = operators_in(a);
            let mut y = operators_in(b);
            let ghost (o, xv, yv) = (out@, x@, y@);
            out.append(&mut x);
            out.append(&mut y);
            proof {
                assert(sites_view(out@) =~= sites_view(o) + sites_view(xv) + sites_view(yv));
            }
        },
        Expr::And(a, b) | Expr::Or(a, b) => {
            let mut x = operators_in(a);
            let mut y = operators_in(b);
            let ghost (xv, yv) = (x@, y@);
            out.append(&mut x);
            out.append(&mut y);
            proof {
                assert(sites_view(out@) =~= sites_view(xv) + sites_view(yv));
            }
        },
        Expr::Not(a) | Expr::Cast(a, _) => {
            out = operators_in(a);
        },
        _ => {},
    }
    proof {
        assert(sites_view(out@) =~= operators_v(e@));
    }
    out
}

/// Every binary operator of the `WHERE` clause, outside calls.
pub fn find_all_where_expressions(t: &Select) -> (r: Vec<OperatorSite>)
    ensures
        sites_view(r@) == match t@.where_clause {
            Some(w) => operators_v(w),
            None => Seq::empty(),
        },
{
    match &t.where_clause {
        Some(w) => operators_in(w),
        None => {
            let out: Vec<OperatorSite> = Vec::new();
            proof {
                assert(sites_view(out@) =~= Seq::empty());
            }
            out
        },
    }
}

} // verus!
