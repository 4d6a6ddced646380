//! Edits of a statement: each takes a tree and returns an independent copy
//! with the edit applied at every site that it describes.

use vstd::prelude::*;
use crate::parser::same_text;
use crate::tree::{same_name, same_name_exec};
use crate::catalog::{JoinCondition, JoinConditionV, find_table_reference_name, reference_for};
use crate::tree::{
    reference_name, ColumnRef, ColumnV, Expr, ExprV, Select, SelectV, TableInfo, TableV, copy_expr, copy_exprs,
    exprs_v, expr_v, lemma_exprs_v, strings_view,
};

verus! {

/// Left or right operand of a binary operator.
#[derive(Debug, Clone, Copy, PartialEq, Eq, Structural)]
pub enum OperandPosition {
    Left,
    Right,
}

/// An edit of expression nodes. Each variant names the nodes it applies to;
/// every other node is kept. Table and column names are compared up to
/// ASCII case; string constants and function names exactly.
#[derive(Debug)]
pub enum ExprEdit {
    /// Column references whose last field is `old` (and whose first field is
    /// `qualifier`, when one is given) get `new` as last field.
    RenameColumn { qualifier: Option<String>, old: String, new: String },
    /// `old_table.old_column` becomes `new_table.new_column`.
    Retarget { old_table: String, old_column: String, new_table: String, new_column: String },
    /// The unqualified reference `column` becomes `table.column`.
    Qualify { column: String, table: String },
    /// Qualified references whose qualifier is `old` get the qualifier `new`.
    Requalify { old: String, new: String },
    /// String constants equal to `old` become `new`.
    ReplaceText { old: String, new: String },
    /// In an equality between a column and a string constant, the constant
    /// at `location` whose value is `old` becomes `new`: the literal of one
    /// equality, identified by its position in the statement.
    ReplaceEqualityText { location: i32, old: String, new: String },
    /// Calls of `old` at `location` are renamed to `new`.
    RenameFunction { location: i32, old: String, new: String },
    /// The operand at `side` of the operator at `location` is cast to
    /// `target_type`, unless it is a cast already.
    CastOperand { location: i32, side: OperandPosition, target_type: String },
    /// Argument `index` of the call at `location` is cast to `target_type`,
    /// unless it is a cast already.
    CastArgument { location: i32, index: usize, target_type: String },
    /// Argument `index` of the call at `location` becomes the column
    /// `column`: qualified as the old argument was, when it was a qualified
    /// column reference (so an alias stays), else by `table`.
    ReplaceArgument { location: i32, index: usize, table: String, column: String },
}

/// Model of an [`ExprEdit`].
pub enum EditV {
    RenameColumn(Option<Seq<char>>, Seq<char>, Seq<char>),
    Retarget(Seq<char>, Seq<char>, Seq<char>, Seq<char>),
    Qualify(Seq<char>, Seq<char>),
    Requalify(Seq<char>, Seq<char>),
    ReplaceText(Seq<char>, Seq<char>),
    ReplaceEqualityText(i32, Seq<char>, Seq<char>),
    RenameFunction(i32, Seq<char>, Seq<char>),
    CastOperand(i32, OperandPosition, Seq<char>),
    CastArgument(i32, nat, Seq<char>),
    ReplaceArgument(i32, nat, Seq<char>, Seq<char>),
}

impl View for ExprEdit {
    type V = EditV;

    open spec fn view(&self) -> EditV {
        match self {
            ExprEdit::RenameColumn { qualifier, old, new } => EditV::RenameColumn(
                match qualifier {
                    Some(q) => Some(q@),
                    None => None,
                },
                old@,
                new@,
            ),
            ExprEdit::Retarget { old_table, old_column, new_table, new_column } => EditV::Retarget(
                old_table@,
                old_column@,
                new_table@,
                new_column@,
            ),
            ExprEdit::Qualify { column, table } => EditV::Qualify(column@, table@),
            ExprEdit::Requalify { old, new } => EditV::Requalify(old@, new@),
            ExprEdit::ReplaceText { old, new } => EditV::ReplaceText(old@, new@),
            ExprEdit::ReplaceEqualityText { location, old, new } => EditV::ReplaceEqualityText(*location, old@, new@),
            ExprEdit::RenameFunction { location, old, new } => EditV::RenameFunction(
                *location,
                old@,
                new@,
            ),
            ExprEdit::CastOperand { location, side, target_type } => EditV::CastOperand(
                *location,
                *side,
                target_type@,
            ),
            ExprEdit::CastArgument { location, index, target_type } => EditV::CastArgument(
                *location,
                *index as nat,
                target_type@,
            ),
            ExprEdit::ReplaceArgument { location, index, table, column } => EditV::ReplaceArgument(
                *location,
                *index as nat,
                table@,
                column@,
            ),
        }
    }
}

/// The edit leaves what it produces unchanged.
pub proof fn lemma_local_idempotent(e: ExprV, d: EditV)
    ensures
        local_v(local_v(e, d), d) == local_v(e, d),
{
    match d {
        EditV::RenameColumn(q, old, new) => match e {
            ExprV::Column(c) => if renames_column(c.fields, q, old) {
                let f = c.fields.update(c.fields.len() - 1, new);
                assert(f.last() == new);
                assert(f.update(f.len() - 1, new) =~= f);
            },
            _ => {},
        },
        EditV::Qualify(col, table) => {},
        EditV::Requalify(old, new) => match e {
            ExprV::Column(c) => if c.fields.len() >= 2 && same_name(c.fields[0], old) {
                let f = c.fields.update(0, new);
                assert(f.update(0, new) =~= f);
            },
            _ => {},
        },
        EditV::ReplaceArgument(loc, idx, t, c) => match e {
            ExprV::Call(n, args, l) => if l == loc && idx < args.len() {
                let a2 = args.update(idx as int, replaced_arg_v(args[idx as int], t, c));
                assert(replaced_arg_v(a2[idx as int], t, c) == a2[idx as int]);
                assert(a2.update(idx as int, replaced_arg_v(a2[idx as int], t, c)) =~= a2);
            },
            _ => {},
        },
        EditV::CastArgument(loc, idx, ty) => match e {
            ExprV::Call(n, args, l) => if l == loc && idx < args.len() && !(args[idx as int] is Cast) {
                let a2 = args.update(idx as int, ExprV::Cast(Box::new(args[idx as int]), ty));
                assert(a2[idx as int] is Cast);
            },
            _ => {},
        },
        _ => {},
    }
}

/// The argument that replaces `old`: `column` under the qualifier of `old`
/// when `old` is a qualified column reference, else under `table`.
pub open spec fn replaced_arg_v(old: ExprV, table: Seq<char>, column: Seq<char>) -> ExprV {
    match old {
        ExprV::Column(c) => if c.fields.len() >= 2 {
            qualified_v(c.fields[0], column)
        } else {
            qualified_v(table, column)
        },
        _ => qualified_v(table, column),
    }
}

/// A column reference with the fields `table.column`, at no known location.
pub open spec fn qualified_v(table: Seq<char>, column: Seq<char>) -> ExprV {
    ExprV::Column(ColumnV { fields: seq![table, column], location: -1i32 })
}

pub open spec fn renames_column(fields: Seq<Seq<char>>, q: Option<Seq<char>>, old: Seq<char>) -> bool {
    fields.len() >= 1 && same_name(fields.last(), old) && match q {
        Some(q) => fields.len() >= 2 && same_name(fields[0], q),
        None => true,
    }
}

/// The edit `d` at the node `e` alone.
pub open spec fn local_v(e: ExprV, d: EditV) -> ExprV {
    match d {
        EditV::RenameColumn(q, old, new) => match e {
            ExprV::Column(c) => if renames_column(c.fields, q, old) {
                ExprV::Column(
                    ColumnV { fields: c.fields.update(c.fields.len() - 1, new), location: c.location },
                )
            } else {
                e
            },
            _ => e,
        },
        EditV::Retarget(ot, oc, nt, nc) => match e {
            ExprV::Column(c) => if c.fields.len() == 2 && same_name(c.fields[0], ot) && same_name(c.fields[1], oc) {
                ExprV::Column(ColumnV { fields: seq![nt, nc], location: c.location })
            } else {
                e
            },
            _ => e,
        },
        EditV::Qualify(col, table) => match e {
            ExprV::Column(c) => if c.fields.len() == 1 && same_name(c.fields[0], col) {
                ExprV::Column(ColumnV { fields: seq![table, col], location: c.location })
            } else {
                e
            },
            _ => e,
        },
        EditV::Requalify(old, new) => match e {
            ExprV::Column(c) => if c.fields.len() >= 2 && same_name(c.fields[0], old) {
                ExprV::Column(ColumnV { fields: c.fields.update(0, new), location: c.location })
            } else {
                e
            },
            _ => e,
        },
        EditV::ReplaceText(old, new) => match e {
            ExprV::Text(s, l) => if s == old {
                ExprV::Text(new, l)
            } else {
                e
            },
            _ => e,
        },
        EditV::RenameFunction(loc, old, new) => match e {
            ExprV::Call(n, args, l) => if l == loc && n == old {
                ExprV::Call(new, args, l)
            } else {
                e
            },
            _ => e,
        },
        EditV::ReplaceEqualityText(loc, old, new) => match e {
            ExprV::Op(n, a, b, l) => if n != "="@ {
                e
            } else {
                match (*a, *b) {
                    (ExprV::Column(_), ExprV::Text(t, tl)) => if tl == loc && t == old {
                        ExprV::Op(n, a, Box::new(ExprV::Text(new, tl)), l)
                    } else {
                        e
                    },
                    (ExprV::Text(t, tl), ExprV::Column(_)) => if tl == loc && t == old {
                        ExprV::Op(n, Box::new(ExprV::Text(new, tl)), b, l)
                    } else {
                        e
                    },
                    _ => e,
                }
            },
            _ => e,
        },
        EditV::CastOperand(loc, side, ty) => match e {
            ExprV::Op(n, a, b, l) => if l != loc {
                e
            } else if side == OperandPosition::Left {
                if *a is Cast {
                    e
                } else {
                    ExprV::Op(n, Box::new(ExprV::Cast(a, ty)), b, l)
                }
            } else {
                if *b is Cast {
                    e
                } else {
                    ExprV::Op(n, a, Box::new(ExprV::Cast(b, ty)), l)
                }
            },
            _ => e,
        },
        EditV::CastArgument(loc, idx, ty) => match e {
            ExprV::Call(n, args, l) => if l == loc && idx < args.len() && !(args[idx as int] is Cast) {
                ExprV::Call(n, args.update(idx as int, ExprV::Cast(Box::new(args[idx as int]), ty)), l)
            } else {
                e
            },
            _ => e,
        },
        EditV::ReplaceArgument(loc, idx, t, c) => match e {
            ExprV::Call(n, args, l) => if l == loc && idx < args.len() {
                ExprV::Call(n, args.update(idx as int, replaced_arg_v(args[idx as int], t, c)), l)
            } else {
                e
            },
            _ => e,
        },
    }
}

pub open spec fn apply_all_v(v: Seq<ExprV>, d: EditV) -> Seq<ExprV>
    decreases v,
{
    if v.len() == 0 {
        Seq::empty()
    } else {
        apply_all_v(v.drop_last(), d).push(apply_v(v.last(), d))
    }
}

/// `e` with its children edited, then itself.
pub open spec fn apply_v(e: ExprV, d: EditV) -> ExprV
    decreases e,
{
    local_v(
        match e {
            ExprV::Op(n, a, b, l) => ExprV::Op(
                n,
                Box::new(apply_v(*a, d)),
                Box::new(apply_v(*b, d)),
                l,
            ),
            ExprV::And(a, b) => ExprV::And(Box::new(apply_v(*a, d)), Box::new(apply_v(*b, d))),
            ExprV::Or(a, b) => ExprV::Or(Box::new(apply_v(*a, d)), Box::new(apply_v(*b, d))),
            ExprV::Not(a) => ExprV::Not(Box::new(apply_v(*a, d))),
            ExprV::Call(n, args, l) => ExprV::Call(n, apply_all_v(args, d), l),
            ExprV::Cast(a, t) => ExprV::Cast(Box::new(apply_v(*a, d)), t),
            _ => e,
        },
        d,
    )
}

/// The statement with `d` applied throughout its select list and `WHERE`.
pub open spec fn apply_select_v(s: SelectV, d: EditV) -> SelectV {
    SelectV {
        targets: apply_all_v(s.targets, d),
        from: s.from,
        where_clause: match s.where_clause {
            Some(w) => Some(apply_v(w, d)),
            None => None,
        },
    }
}

pub proof fn lemma_apply_all_v(v: Seq<ExprV>, d: EditV)
    ensures
        apply_all_v(v, d).len() == v.len(),
        forall|k: int| 0 <= k < v.len() ==> #[trigger] apply_all_v(v, d)[k] == apply_v(v[k], d),
    decreases v.len(),
{
    if v.len() > 0 {
        lemma_apply_all_v(v.drop_last(), d);
    }
}

fn fields_are_one(fields: &Vec<String>, a: &str) -> (r: bool)
    ensures
        r == (strings_view(fields@).len() == 1 && same_name(strings_view(fields@)[0], a@)),
{
    proof {
        let sv = strings_view(fields@);
        assert(sv.len() == fields@.len());
        if fields@.len() > 0 {
            assert(sv[0] == fields@[0]@);
        }
    }
    fields.len() == 1 && same_name_exec(fields[0].as_str(), a)
}

fn fields_are_two(fields: &Vec<String>, a: &str, b: &str) -> (r: bool)
    ensures
        r == (strings_view(fields@).len() == 2 && same_name(strings_view(fields@)[0], a@) && same_name(
            strings_view(fields@)[1],
            b@,
        )),
{
    proof {
        let sv = strings_view(fields@);
        assert(sv.len() == fields@.len());
        if fields@.len() > 1 {
            assert(sv[0] == fields@[0]@);
            assert(sv[1] == fields@[1]@);
        }
    }
    fields.len() == 2 && same_name_exec(fields[0].as_str(), a) && same_name_exec(fields[1].as_str(), b)
}

fn two_fields(a: &String, b: &String) -> (r: Vec<String>)
    ensures
        strings_view(r@) == seq![a@, b@],
{
    let r = vec![a.clone(), b.clone()];
    proof {
        assert(strings_view(r@) =~= seq![a@, b@]);
    }
    r
}

fn edit_column(c: ColumnRef, d: &ExprEdit) -> (r: Expr)
    ensures
        r@ == local_v(ExprV::Column(c@), d@),
{
    let ghost cv = c@;
    match d {
        ExprEdit::RenameColumn { qualifier, old, new } => {
            let n = c.fields.len();
            let hit = n >= 1 && same_name_exec(c.fields[n - 1].as_str(), old.as_str()) && match qualifier {
                Some(q) => n >= 2 && same_name_exec(c.fields[0].as_str(), q.as_str()),
                None => true,
            };
            if hit {
                let mut fields = c.fields;
                fields.set(n - 1, new.clone());
                proof {
                    assert(strings_view(fields@) =~= cv.fields.update(n - 1, new@));
                }
                Expr::Column(ColumnRef { fields, location: c.location })
            } else {
                Expr::Column(c)
            }
        },
        ExprEdit::Retarget { old_table, old_column, new_table, new_column } => {
            if fields_are_two(&c.fields, old_table.as_str(), old_column.as_str()) {
                Expr::Column(ColumnRef { fields: two_fields(new_table, new_column), location: c.location })
            } else {
                Expr::Column(c)
            }
        },
        ExprEdit::Qualify { column, table } => {
            if fields_are_one(&c.fields, column.as_str()) {
                Expr::Column(ColumnRef { fields: two_fields(table, column), location: c.location })
            } else {
                Expr::Column(c)
            }
        },
        ExprEdit::Requalify { old, new } => {
            if c.fields.len() >= 2 && same_name_exec(c.fields[0].as_str(), old.as_str()) {
                let mut fields = c.fields;
                fields.set(0, new.clone());
                proof {
                    assert(strings_view(fields@) =~= cv.fields.update(0, new@));
                }
                Expr::Column(ColumnRef { fields, location: c.location })
            } else {
                Expr::Column(c)
            }
        },
        _ => Expr::Column(c),
    }
}

fn is_cast(e: &Expr) -> (r: bool)
    ensures
        r == (e@ is Cast),
{
    match e {
        Expr::Cast(_, _) => true,
        _ => false,
    }
}

fn edit_op(n: String, a: Box<Expr>, b: Box<Expr>, l: i32, d: &ExprEdit) -> (r: Expr)
    ensures
        r@ == local_v(ExprV::Op(n@, Box::new(expr_v(*a)), Box::new(expr_v(*b)), l), d@),
{
    match d {
        ExprEdit::CastOperand { location, side, target_type } => {
            if l != *location {
                Expr::Op(n, a, b, l)
            } else {
                match side {
                    OperandPosition::Left => {
                        if is_cast(&a) {
                            Expr::Op(n, a, b, l)
                        } else {
                            let c = Expr::Cast(a, target_type.clone());
                            assert(c@ == ExprV::Cast(Box::new(expr_v(*a)), target_type@));
                            Expr::Op(n, Box::new(c), b, l)
                        }
                    },
                    OperandPosition::Right => {
                        if is_cast(&b) {
                            Expr::Op(n, a, b, l)
                        } else {
                            let c = Expr::Cast(b, target_type.clone());
                            assert(c@ == ExprV::Cast(Box::new(expr_v(*b)), target_type@));
                            Expr::Op(n, a, Box::new(c), l)
                        }
                    },
                }
            }
        },
        ExprEdit::ReplaceEqualityText { location, old, new } => {
            proof {
                reveal_with_fuel(expr_v, 2);
            }
            if !same_text(n.as_str(), "=") {
                return Expr::Op(n, a, b, l);
            }
            match (*a, *b) {
                (Expr::Column(c), Expr::Text(t, tl)) => {
                    let hit = tl == *location && same_text(t.as_str(), old.as_str());
                    if hit {
                        Expr::Op(n, Box::new(Expr::Column(c)), Box::new(Expr::Text(new.clone(), tl)), l)
                    } else {
                        Expr::Op(n, Box::new(Expr::Column(c)), Box::new(Expr::Text(t, tl)), l)
                    }
                },
                (Expr::Text(t, tl), Expr::Column(c)) => {
                    let hit = tl == *location && same_text(t.as_str(), old.as_str());
                    if hit {
                        Expr::Op(n, Box::new(Expr::Text(new.clone(), tl)), Box::new(Expr::Column(c)), l)
                    } else {
                        Expr::Op(n, Box::new(Expr::Text(t, tl)), Box::new(Expr::Column(c)), l)
                    }
                },
                (x, y) => Expr::Op(n, Box::new(x), Box::new(y), l),
            }
        },
        _ => Expr::Op(n, a, b, l),
    }
}

fn edit_text(s: String, l: i32, d: &ExprEdit) -> (r: Expr)
    ensures
        r@ == local_v(ExprV::Text(s@, l), d@),
{
    match d {
            ExprEdit::ReplaceText { old, new } => {
                if same_text(s.as_str(), old.as_str()) {
                    Expr::Text(new.clone(), l)
                } else {
                    Expr::Text(s, l)
                }
            },
            _ => Expr::Text(s, l),
        }
}

fn edit_call(n: String, args: Vec<Expr>, l: i32, d: &ExprEdit) -> (r: Expr)
    ensures
        r@ == local_v(ExprV::Call(n@, exprs_v(args@), l), d@),
{
    proof {
        lemma_exprs_v(args@);
    }
    match d {
            ExprEdit::RenameFunction { location, old, new } => {
                if l == *location && same_text(n.as_str(), old.as_str()) {
                    Expr::Call(new.clone(), args, l)
                } else {
                    Expr::Call(n, args, l)
                }
            },
            ExprEdit::CastArgument { location, index, target_type } => {
                if l == *location && *index < args.len() && !is_cast(&args[*index]) {
                    let ghost old_args = args@;
                    let mut args = args;
                    let arg = args.remove(*index);
                    let cast = Expr::Cast(Box::new(arg), target_type.clone());
                    args.insert(*index, cast);
                    proof {
                        reveal_with_fuel(expr_v, 2);
                        lemma_exprs_v(old_args);
                        lemma_exprs_v(args@);
                        assert(exprs_v(args@) =~= exprs_v(old_args).update(
                            *index as int,
                            ExprV::Cast(Box::new(exprs_v(old_args)[*index as int]), target_type@),
                        ));
                    }
                    Expr::Call(n, args, l)
                } else {
                    Expr::Call(n, args, l)
                }
            },
            ExprEdit::ReplaceArgument { location, index, table, column } => {
                if l == *location && *index < args.len() {
                    let ghost old_args = args@;
                    proof {
                        lemma_exprs_v(old_args);
                    }
                    let qualifier = match &args[*index] {
                        Expr::Column(c) => {
                            if c.fields.len() >= 2 {
                                c.fields[0].clone()
                            } else {
                                table.clone()
                            }
                        },
                        _ => table.clone(),
                    };
                    let mut args = args;
                    let arg = Expr::Column(
                        ColumnRef { fields: two_fields(&qualifier, column), location: -1 },
                    );
                    proof {
                        assert(arg@ == replaced_arg_v(exprs_v(old_args)[*index as int], table@, column@));
                    }
                    args.set(*index, arg);
                    proof {
                        lemma_exprs_v(args@);
                        assert(exprs_v(args@) =~= exprs_v(old_args).update(
                            *index as int,
                            replaced_arg_v(exprs_v(old_args)[*index as int], table@, column@),
                        ));
                    }
                    Expr::Call(n, args, l)
                } else {
                    Expr::Call(n, args, l)
                }
            },
            _ => Expr::Call(n, args, l),
        }
}

/// The edit `d` at the node `e` alone.
fn edit_local(e: Expr, d: &ExprEdit) -> (r: Expr)
    ensures
        r@ == local_v(e@, d@),
{
    proof {
        reveal_with_fuel(expr_v, 2);
    }
    let ghost ev = e@;
    match e {
        Expr::Column(c) => {
            assert(ev == ExprV::Column(c@));
            edit_column(c, d)
        },
        Expr::Text(s, l) => edit_text(s, l, d),
        Expr::Call(n, args, l) => edit_call(n, args, l, d),
        Expr::Op(n, a, b, l) => edit_op(n, a, b, l, d),
        _ => e,
    }
}

/// A copy of `e` with `d` applied at every node.
pub fn apply_expr(e: &Expr, d: &ExprEdit) -> (r: Expr)
    ensures
        r@ == apply_v(e@, d@),
    decreases e,
{
    let m = match e {
        Expr::Op(n, a, b, l) => Expr::Op(
            n.clone(),
            Box::new(apply_expr(a, d)),
            Box::new(apply_expr(b, d)),
            *l,
        ),
        Expr::And(a, b) => Expr::And(Box::new(apply_expr(a, d)), Box::new(apply_expr(b, d))),
        Expr::Or(a, b) => Expr::Or(Box::new(apply_expr(a, d)), Box::new(apply_expr(b, d))),
        Expr::Not(a) => Expr::Not(Box::new(apply_expr(a, d))),
        Expr::Call(n, args, l) => Expr::Call(n.clone(), apply_exprs(args, d), *l),
        Expr::Cast(a, t) => Expr::Cast(Box::new(apply_expr(a, d)), t.clone()),
        _ => copy_expr(e),
    };
    edit_local(m, d)
}

/// Copies of the elements of `v`, each with `d` applied at every node.
pub fn apply_exprs(v: &Vec<Expr>, d: &ExprEdit) -> (r: Vec<Expr>)
    ensures
        exprs_v(r@) == apply_all_v(exprs_v(v@), d@),
    decreases v,
{
    let mut r: Vec<Expr> = Vec::new();
    let mut i: usize = 0;
    proof {
        lemma_exprs_v(v@);
    }
    while i < v.len()
        invariant
            i <= v@.len(),
            exprs_v(v@).len() == v@.len(),
            forall|k: int| 0 <= k < v@.len() ==> #[trigger] exprs_v(v@)[k] == expr_v(v@[k]),
            exprs_v(r@) == apply_all_v(exprs_v(v@).subrange(0, i as int), d@),
        decreases v@.len() - i,
    {
        proof {
            assert(decreases_to!(v => v@[i as int]));
        }
        let e = apply_expr(&v[i], d);
        proof {
            let s = exprs_v(v@).subrange(0, i + 1);
            assert(s.drop_last() =~= exprs_v(v@).subrange(0, i as int));
            assert(r@.push(e).drop_last() =~= r@);
        }
        r.push(e);
        i = i + 1;
    }
    proof {
        assert(exprs_v(v@).subrange(0, v@.len() as int) =~= exprs_v(v@));
    }
    r
}

fn copy_from(from: &Vec<TableInfo>) -> (r: Vec<TableInfo>)
    ensures
        r@.map_values(|t: TableInfo| t@) == from@.map_values(|t: TableInfo| t@),
{
    let mut r: Vec<TableInfo> = Vec::new();
    let mut i: usize = 0;
    while i < from.len()
        invariant
            i <= from@.len(),
            r@.len() == i,
            forall|k: int| 0 <= k < i ==> #[trigger] r@[k]@ == from@[k]@,
        decreases from@.len() - i,
    {
        let t = &from[i];
        let alias = match &t.alias {
            Some(a) => Some(a.clone()),
            None => None,
        };
        r.push(TableInfo { table_name: t.table_name.clone(), alias });
        i = i + 1;
    }
    proof {
        assert(r@.map_values(|t: TableInfo| t@) =~= from@.map_values(|t: TableInfo| t@));
    }
    r
}

/// A copy of `t` with `d` applied throughout its select list and `WHERE`.
pub fn apply_edit(t: &Select, d: &ExprEdit) -> (r: Select)
    ensures
        r@ == apply_select_v(t@, d@),
{
    let targets = apply_exprs(&t.targets, d);
    let where_clause = match &t.where_clause {
        Some(w) => Some(apply_expr(w, d)),
        None => None,
    };
    Select { targets, from: copy_from(&t.from), where_clause }
}

/// Applying an edit a second time changes nothing.
pub proof fn lemma_apply_idempotent(e: ExprV, d: EditV)
    ensures
        apply_v(apply_v(e, d), d) == apply_v(e, d),
    decreases e,
{
    lemma_local_idempotent(e, d);
    match e {
        ExprV::Op(n, a, b, l) => {
            lemma_apply_idempotent(*a, d);
            lemma_apply_idempotent(*b, d);
            let a1 = apply_v(*a, d);
            let b1 = apply_v(*b, d);
            let m = ExprV::Op(n, Box::new(a1), Box::new(b1), l);
            lemma_local_idempotent(m, d);
            match d {
                EditV::ReplaceEqualityText(loc, old, new) => {
                    match (a1, b1) {
                        (ExprV::Column(_), ExprV::Text(t, tl)) => {
                            assert(apply_v(ExprV::Text(new, tl), d) == ExprV::Text(new, tl));
                        },
                        (ExprV::Text(t, tl), ExprV::Column(_)) => {
                            assert(apply_v(ExprV::Text(new, tl), d) == ExprV::Text(new, tl));
                        },
                        _ => {},
                    }
                },
                EditV::CastOperand(loc, side, ty) => {
                    let ca = ExprV::Cast(Box::new(a1), ty);
                    let cb = ExprV::Cast(Box::new(b1), ty);
                    assert(apply_v(ca, d) == ca);
                    assert(apply_v(cb, d) == cb);
                },
                _ => {},
            }
        },
        ExprV::And(a, b) => {
            lemma_apply_idempotent(*a, d);
            lemma_apply_idempotent(*b, d);
            lemma_local_idempotent(
                ExprV::And(Box::new(apply_v(*a, d)), Box::new(apply_v(*b, d))),
                d,
            );
        },
        ExprV::Or(a, b) => {
            lemma_apply_idempotent(*a, d);
            lemma_apply_idempotent(*b, d);
            lemma_local_idempotent(
                ExprV::Or(Box::new(apply_v(*a, d)), Box::new(apply_v(*b, d))),
                d,
            );
        },
        ExprV::Not(a) => {
            lemma_apply_idempotent(*a, d);
            lemma_local_idempotent(ExprV::Not(Box::new(apply_v(*a, d))), d);
        },
        ExprV::Cast(a, t) => {
            lemma_apply_idempotent(*a, d);
            lemma_local_idempotent(ExprV::Cast(Box::new(apply_v(*a, d)), t), d);
        },
        ExprV::Call(n, args, l) => {
            lemma_apply_all_idempotent(args, d);
            let a1 = apply_all_v(args, d);
            let m = ExprV::Call(n, a1, l);
            lemma_local_idempotent(m, d);
            match d {
                EditV::ReplaceArgument(loc, idx, t, c) => {
                    if l == loc && idx < a1.len() {
                        let q = replaced_arg_v(a1[idx as int], t, c);
                        let a2 = a1.update(idx as int, q);
                        assert(apply_v(q, d) == q);
                        lemma_apply_all_v(a1, d);
                        lemma_apply_all_v(a2, d);
                        assert(apply_all_v(a2, d) =~= a2);
                    }
                },
                EditV::CastArgument(loc, idx, ty) => {
                    if l == loc && idx < a1.len() && !(a1[idx as int] is Cast) {
                        let x = a1[idx as int];
                        let q = ExprV::Cast(Box::new(x), ty);
                        let a2 = a1.update(idx as int, q);
                        lemma_apply_all_v(a1, d);
                        lemma_apply_all_v(args, d);
                        assert(apply_v(x, d) == x);
                        assert(apply_v(q, d) == q);
                        lemma_apply_all_v(a2, d);
                        assert(apply_all_v(a2, d) =~= a2);
                    }
                },
                _ => {},
            }
        },
        _ => {},
    }
}

pub proof fn lemma_apply_all_idempotent(v: Seq<ExprV>, d: EditV)
    ensures
        apply_all_v(apply_all_v(v, d), d) == apply_all_v(v, d),
    decreases v,
{
    let v1 = apply_all_v(v, d);
    lemma_apply_all_v(v, d);
    lemma_apply_all_v(v1, d);
    assert forall|k: int| 0 <= k < v.len() implies #[trigger] apply_v(v1[k], d) == v1[k] by {
        lemma_apply_idempotent(v[k], d);
    }
    assert(apply_all_v(v1, d) =~= v1);
}

/// Applying the same edit twice to a statement equals applying it once.
pub proof fn lemma_edit_idempotent(s: SelectV, d: EditV)
    ensures
        apply_select_v(apply_select_v(s, d), d) == apply_select_v(s, d),
{
    lemma_apply_all_idempotent(s.targets, d);
    match s.where_clause {
        Some(w) => lemma_apply_idempotent(w, d),
        None => {},
    }
}

/// A `FROM` entry names `target` as its table or as its alias, up to ASCII
/// case.
pub open spec fn names_table(t: TableV, target: Seq<char>) -> bool {
    same_name(t.table_name, target) || (t.alias is Some && same_name(t.alias->0, target))
}

pub open spec fn rename_entry_v(t: TableV, target: Seq<char>, rep: Seq<char>) -> TableV {
    if names_table(t, target) {
        TableV { table_name: rep, alias: t.alias }
    } else {
        t
    }
}

/// The statement with every `FROM` entry that names `target` reading table
/// `rep`, its alias kept; nothing else changes.
pub open spec fn rename_from_v(s: SelectV, target: Seq<char>, rep: Seq<char>) -> SelectV {
    SelectV {
        from: Seq::new(s.from.len(), |k: int| rename_entry_v(s.from[k], target, rep)),
        ..s
    }
}

/// Some `FROM` entry reads `table` without an alias, so that qualified
/// references use the table name itself.
pub open spec fn has_bare_entry(from: Seq<TableV>, table: Seq<char>) -> bool {
    exists|k: int| 0 <= k < from.len() && (#[trigger] from[k]).alias is None && same_name(from[k].table_name, table)
}

/// Table rename: every `FROM` entry that names `target` (as table or as
/// alias) reads `rep`, its alias kept; where an entry read `target` without
/// an alias, references qualified by `target` are qualified by `rep`, while
/// references qualified by an alias are kept.
pub open spec fn rename_table_v(s: SelectV, target: Seq<char>, rep: Seq<char>) -> SelectV {
    let renamed = rename_from_v(s, target, rep);
    if has_bare_entry(s.from, target) {
        apply_select_v(renamed, EditV::Requalify(target, rep))
    } else {
        renamed
    }
}

/// Table-for-column swap: the table referred to as `old_ref` is replaced by
/// `new_table`, as a table rename does.
pub open spec fn swap_table_v(s: SelectV, old_ref: Seq<char>, new_table: Seq<char>) -> SelectV {
    rename_table_v(s, old_ref, new_table)
}

fn copy_opt(s: &Option<String>) -> (r: Option<String>)
    ensures
        match (r, *s) {
            (Some(a), Some(b)) => a@ == b@,
            (None, None) => true,
            _ => false,
        },
{
    match s {
        Some(a) => Some(a.clone()),
        None => None,
    }
}

fn rename_from(t: &Select, target: &str, replacement: &str) -> (r: Select)
    ensures
        r@ == rename_from_v(t@, target@, replacement@),
{
    let mut from: Vec<TableInfo> = Vec::new();
    let mut i: usize = 0;
    while i < t.from.len()
        invariant
            i <= t.from@.len(),
            from@.len() == i,
            forall|k: int| 0 <= k < i ==> #[trigger] from@[k]@ == rename_entry_v(
                t.from@[k]@,
                target@,
                replacement@,
            ),
        decreases t.from@.len() - i,
    {
        let e = &t.from[i];
        let hit = same_name_exec(e.table_name.as_str(), target) || match &e.alias {
            Some(a) => same_name_exec(a.as_str(), target),
            None => false,
        };
        let name = if hit {
            replacement.to_owned()
        } else {
            e.table_name.clone()
        };
        from.push(TableInfo { table_name: name, alias: copy_opt(&e.alias) });
        i = i + 1;
    }
    let r = Select {
        targets: copy_exprs(&t.targets),
        from,
        where_clause: match &t.where_clause {
            Some(w) => Some(copy_expr(w)),
            None => None,
        },
    };
    proof {
        assert(r@.from =~= rename_from_v(t@, target@, replacement@).from);
    }
    r
}

/// A copy of `t` with the table `target` renamed to `replacement` (see
/// `rename_table_v`).
pub fn rename_table(t: &Select, target: &str, replacement: &str) -> (r: Select)
    ensures
        r@ == rename_table_v(t@, target@, replacement@),
{
    let mut bare = false;
    let mut i: usize = 0;
    while i < t.from.len()
        invariant
            i <= t.from@.len(),
            bare == exists|k: int|
                0 <= k < i && (#[trigger] t.from@[k]@).alias is None && same_name(t.from@[k]@.table_name,
                    target@),
        decreases t.from@.len() - i,
    {
        let hit = t.from[i].alias.is_none() && same_name_exec(t.from[i].table_name.as_str(), target);
        proof {
            if hit {
                assert(t.from@[i as int]@.alias is None);
            }
            assert(hit == ((t.from@[i as int]@).alias is None && same_name(t.from@[i as int]@.table_name,
                target@)));
        }
        if hit {
            bare = true;
        }
        i = i + 1;
    }
    proof {
        let fv = t@.from;
        if bare {
            let k = choose|k: int|
                0 <= k < t.from@.len() && (#[trigger] t.from@[k]@).alias is None
                    && same_name(t.from@[k]@.table_name, target@);
            assert(fv[k] == t.from@[k]@);
        }
        if has_bare_entry(fv, target@) {
            let k = choose|k: int|
                0 <= k < fv.len() && (#[trigger] fv[k]).alias is None && same_name(fv[k].table_name,
                    target@);
            assert(t.from@[k]@ == fv[k]);
        }
    }
    let renamed = rename_from(t, target, replacement);
    if bare {
        let d = ExprEdit::Requalify { old: target.to_owned(), new: replacement.to_owned() };
        apply_edit(&renamed, &d)
    } else {
        renamed
    }
}

/// Replaces the table referred to as `old_ref` by `new_table`.
pub fn swap_table_for_column(t: &Select, old_ref: &str, new_table: &str) -> (r: Select)
    ensures
        r@ == swap_table_v(t@, old_ref@, new_table@),
{
    rename_table(t, old_ref, new_table)
}

proof fn lemma_rename_from_idempotent(s: SelectV, target: Seq<char>, rep: Seq<char>)
    ensures
        rename_from_v(rename_from_v(s, target, rep), target, rep) == rename_from_v(s, target, rep),
{
    assert(rename_from_v(rename_from_v(s, target, rep), target, rep).from =~= rename_from_v(
        s,
        target,
        rep,
    ).from);
}

/// Renaming a table twice equals renaming it once.
pub proof fn lemma_rename_table_idempotent(s: SelectV, target: Seq<char>, rep: Seq<char>)
    ensures
        rename_table_v(rename_table_v(s, target, rep), target, rep) == rename_table_v(
            s,
            target,
            rep,
        ),
{
    let rf = rename_from_v(s, target, rep);
    let s1 = rename_table_v(s, target, rep);
    lemma_rename_from_idempotent(s, target, rep);
    assert(s1.from == rf.from);
    assert(rename_from_v(s1, target, rep).from =~= rf.from);
    if has_bare_entry(s.from, target) {
        let d = EditV::Requalify(target, rep);
        if same_name(rep, target) {
            let k = choose|k: int| 0 <= k < s.from.len() && (#[trigger] s.from[k]).alias is None
                && same_name(s.from[k].table_name, target);
            assert(s1.from[k].alias is None && s1.from[k].table_name == rep);
            assert(has_bare_entry(s1.from, target));
            assert(rename_from_v(s1, target, rep) == s1);
            lemma_edit_idempotent(rf, d);
        } else {
            assert(!has_bare_entry(s1.from, target));
            assert(rename_from_v(s1, target, rep) == s1);
        }
    } else {
        assert(!has_bare_entry(s1.from, target));
        assert(rename_from_v(s1, target, rep) == s1);
    }
}

/// Renaming a table keeps the alias of every `FROM` entry, and the number
/// of entries.
pub proof fn lemma_rename_table_keeps_aliases(s: SelectV, target: Seq<char>, rep: Seq<char>)
    ensures
        rename_table_v(s, target, rep).from.len() == s.from.len(),
        forall|k: int|
            0 <= k < s.from.len() ==> (#[trigger] rename_table_v(s, target, rep).from[k]).alias
                == s.from[k].alias,
{
}

/// The statement with `table` added to `FROM` under the alias `alias`.
pub open spec fn add_table_v(s: SelectV, table: Seq<char>, alias: Seq<char>) -> SelectV {
    SelectV { from: s.from.push(TableV { table_name: table, alias: Some(alias) }), ..s }
}

/// A copy of `t` that also reads `table` under the alias `alias`.
pub fn add_table(t: &Select, table: &str, alias: &str) -> (r: Select)
    ensures
        r@ == add_table_v(t@, table@, alias@),
{
    let mut from = copy_from(&t.from);
    from.push(TableInfo { table_name: table.to_owned(), alias: Some(alias.to_owned()) });
    let r = Select {
        targets: copy_exprs(&t.targets),
        from,
        where_clause: match &t.where_clause {
            Some(w) => Some(copy_expr(w)),
            None => None,
        },
    };
    proof {
        assert(r@.from =~= t@.from.push(TableV { table_name: table@, alias: Some(alias@) }));
    }
    r
}

/// The equality `left.left_column = right.right_column`, at no known location.
pub open spec fn join_eq_v(left: Seq<char>, c: JoinConditionV) -> ExprV {
    ExprV::Op(
        "="@,
        Box::new(qualified_v(left, c.left_column)),
        Box::new(qualified_v(c.right_table, c.right_column)),
        -1i32,
    )
}

/// Join insertion: `table` added to `FROM` without an alias, and the
/// condition (its existing side named as the statement names it) added to
/// `WHERE` by `AND`.
pub open spec fn add_join_v(s: SelectV, table: Seq<char>, c: JoinConditionV) -> SelectV {
    let eq = join_eq_v(reference_for(s.from, c.left_table), c);
    SelectV {
        targets: s.targets,
        from: s.from.push(TableV { table_name: table, alias: None }),
        where_clause: Some(
            match s.where_clause {
                Some(w) => ExprV::And(Box::new(w), Box::new(eq)),
                None => eq,
            },
        ),
    }
}

/// A copy of `t` that also reads `table`, joined by `cond`.
pub fn add_join(t: &Select, table: &str, cond: &JoinCondition) -> (r: Select)
    ensures
        r@ == add_join_v(t@, table@, cond@),
{
    let left = find_table_reference_name(&t.from, cond.left_table.as_str());
    proof {
        assert(t.from@.map_values(|x: TableInfo| x@) =~= t@.from);
    }
    let eq = Expr::Op(
        "=".to_owned(),
        Box::new(Expr::Column(ColumnRef { fields: two_fields(&left, &cond.left_column), location: -1 })),
        Box::new(Expr::Column(ColumnRef { fields: two_fields(&cond.right_table, &cond.right_column), location: -1 })),
        -1,
    );
    proof {
        reveal_with_fuel(expr_v, 2);
        assert(eq@ == join_eq_v(left@, cond@));
    }
    let where_clause = match &t.where_clause {
        Some(w) => Expr::And(Box::new(copy_expr(w)), Box::new(eq)),
        None => eq,
    };
    let mut from = copy_from(&t.from);
    from.push(TableInfo { table_name: table.to_owned(), alias: None });
    let r = Select { targets: copy_exprs(&t.targets), from, where_clause: Some(where_clause) };
    proof {
        assert(r@.from =~= t@.from.push(TableV { table_name: table@, alias: None }));
        assert(r@.targets == t@.targets);
        assert(r@.where_clause == add_join_v(t@, table@, cond@).where_clause);
    }
    r
}

} // verus!
