//! Refinement generators: from an analyzer or executor outcome and the
//! similarity service's answers, the candidate trees with their costs.

use vstd::prelude::*;
use crate::catalog::{
    ColumnOperand, FunctionTypecastRefinement, JoinCondition, JoinConditionV, JoinableTable, copy_condition, SimilarColumn, SimilarFunction, SimilarTable,
    TypecastRefinement, MAX_DISTANCE,
};
use crate::mutate::{
    add_join, add_join_v, apply_edit, apply_select_v, rename_table, rename_table_v,
    swap_table_for_column, swap_table_v, EditV, ExprEdit,
};
use crate::similarity::{relation_name, relation_of};
use crate::tree::{Select, SelectV, TableInfo, TableV, reference_name};

verus! {


/// Weight of each refinement class, in thousandths (1000 is a weight of 1.0);
/// every `u64` is accepted.
#[derive(Debug, Clone, Copy)]
pub struct Weights {
    pub table: u64,
    pub column: u64,
    pub table_for_column: u64,
    pub qualifier: u64,
    pub join: u64,
    pub operand: u64,
    pub typecast: u64,
    pub argument: u64,
    pub function_name: u64,
    pub ambiguity: u64,
    pub value: u64,
}

impl Weights {
    /// The weights as shipped: 1.0 for most classes, 2.0 for joins, 0.1 for
    /// casts, 0.0 for ambiguity.
    pub fn shipped() -> (r: Weights)
        ensures
            r.table == 1000 && r.column == 1000 && r.table_for_column == 1000 && r.qualifier
                == 1000 && r.join == 2000 && r.operand == 1000 && r.typecast == 100 && r.argument
                == 1000 && r.function_name == 1000 && r.ambiguity == 0 && r.value == 1000,
    {
        Weights {
            table: 1000,
            column: 1000,
            table_for_column: 1000,
            qualifier: 1000,
            join: 2000,
            operand: 1000,
            typecast: 100,
            argument: 1000,
            function_name: 1000,
            ambiguity: 0,
            value: 1000,
        }
    }
}

/// `round(distance × 100 × weight)` with the distance in millionths and the
/// weight in thousandths, halves rounded up.
pub open spec fn edit_cost_spec(distance: nat, weight: nat) -> nat {
    (distance * weight + 5000000) / 10000000
}

/// `a + b`, or the largest `u64` where the sum exceeds it.
pub open spec fn sat_add(a: nat, b: nat) -> nat {
    if a + b > u64::MAX {
        u64::MAX as nat
    } else {
        a + b
    }
}

/// The cost that one edit at `distance` adds under `weight`.
pub fn edit_cost(distance: u64, weight: u64) -> (r: u64)
    requires
        distance <= MAX_DISTANCE,
    ensures
        r == edit_cost_spec(distance as nat, weight as nat),
{
    proof {
        assert(distance as int * weight as int <= MAX_DISTANCE as int * u64::MAX as int) by (nonlinear_arith)
            requires
                distance <= MAX_DISTANCE,
                weight <= u64::MAX,
        ;
    }
    let p: u128 = distance as u128 * weight as u128;
    let r: u128 = (p + 5000000) / 10000000;
    proof {
        assert(r <= u64::MAX) by (nonlinear_arith)
            requires
                p <= MAX_DISTANCE as int * u64::MAX as int,
                r == (p + 5000000) / 10000000,
        ;
    }
    r as u64
}

fn add_saturating(a: u64, b: u64) -> (r: u64)
    ensures
        r == sat_add(a as nat, b as nat),
{
    if a > u64::MAX - b {
        u64::MAX
    } else {
        a + b
    }
}

/// An edit descriptor: one refinement of a statement.
#[derive(Debug)]
pub enum Edit {
    /// Table rename (see `rename_table`).
    RenameTable { target: String, replacement: String },
    /// Table insertion under an alias (see `add_table`).
    AddTable { table: String, alias: String },
    /// Table-for-column swap (see `swap_table_for_column`).
    SwapTable { old_ref: String, new_table: String },
    /// Join insertion (see `add_join`).
    AddJoin { table: String, condition: JoinCondition },
    /// An edit of expression nodes (see `apply_edit`).
    Expr(ExprEdit),
    /// Several edits of expression nodes, in order.
    Sequence(Vec<ExprEdit>),
}

/// Model of an [`Edit`].
pub enum EditDescV {
    RenameTable(Seq<char>, Seq<char>),
    AddTable(Seq<char>, Seq<char>),
    SwapTable(Seq<char>, Seq<char>),
    AddJoin(Seq<char>, JoinConditionV),
    Expr(EditV),
    Sequence(Seq<EditV>),
}

impl View for Edit {
    type V = EditDescV;

    open spec fn view(&self) -> EditDescV {
        match self {
            Edit::RenameTable { target, replacement } => EditDescV::RenameTable(
                target@,
                replacement@,
            ),
            Edit::AddTable { table, alias } => EditDescV::AddTable(table@, alias@),
            Edit::SwapTable { old_ref, new_table } => EditDescV::SwapTable(old_ref@, new_table@),
            Edit::AddJoin { table, condition } => EditDescV::AddJoin(table@, condition@),
            Edit::Expr(d) => EditDescV::Expr(d@),
            Edit::Sequence(ds) => EditDescV::Sequence(ds@.map_values(|d: ExprEdit| d@)),
        }
    }
}

pub open spec fn apply_all_edits_v(s: SelectV, ds: Seq<EditV>) -> SelectV
    decreases ds.len(),
{
    if ds.len() == 0 {
        s
    } else {
        apply_select_v(apply_all_edits_v(s, ds.drop_last()), ds.last())
    }
}

/// The statement that the edit turns `s` into.
pub open spec fn apply_desc_v(s: SelectV, e: EditDescV) -> SelectV {
    match e {
        EditDescV::RenameTable(t, r) => rename_table_v(s, t, r),
        EditDescV::AddTable(t, a) => crate::mutate::add_table_v(s, t, a),
        EditDescV::SwapTable(o, n) => swap_table_v(s, o, n),
        EditDescV::AddJoin(t, c) => add_join_v(s, t, c),
        EditDescV::Expr(d) => apply_select_v(s, d),
        EditDescV::Sequence(ds) => apply_all_edits_v(s, ds),
    }
}

/// A copy of `t` with the edit `e` applied.
pub fn apply_descriptor(t: &Select, e: &Edit) -> (r: Select)
    ensures
        r@ == apply_desc_v(t@, e@),
{
    match e {
        Edit::RenameTable { target, replacement } => rename_table(t, target.as_str(), replacement.as_str()),
        Edit::AddTable { table, alias } => crate::mutate::add_table(t, table.as_str(), alias.as_str()),
        Edit::SwapTable { old_ref, new_table } => swap_table_for_column(t, old_ref.as_str(), new_table.as_str()),
        Edit::AddJoin { table, condition } => add_join(t, table.as_str(), condition),
        Edit::Expr(d) => apply_edit(t, d),
        Edit::Sequence(ds) => {
            let ghost dv = ds@.map_values(|d: ExprEdit| d@);
            let mut cur = crate::tree::deep_copy(t);
            let mut i: usize = 0;
            while i < ds.len()
                invariant
                    i <= ds@.len(),
                    dv == ds@.map_values(|d: ExprEdit| d@),
                    cur@ == apply_all_edits_v(t@, dv.subrange(0, i as int)),
                decreases ds@.len() - i,
            {
                proof {
                    assert(dv.subrange(0, i + 1).drop_last() =~= dv.subrange(0, i as int));
                }
                cur = apply_edit(&cur, &ds[i]);
                i = i + 1;
            }
            proof {
                assert(dv.subrange(0, dv.len() as int) =~= dv);
            }
            cur
        },
    }
}

/// An edit with the cost it adds.
#[derive(Debug)]
pub struct Proposal {
    pub edit: Edit,
    pub cost: u64,
}

/// A queued tree: its cumulative cost and the tree.
#[derive(Debug)]
pub struct Candidate {
    pub cost: u64,
    pub tree: Select,
}

/// The candidates that the proposals make of `t` at cumulative cost `cost`:
/// one per proposal, in order, each at `cost` plus what its edit adds.
pub fn make_candidates(t: &Select, cost: u64, proposals: &Vec<Proposal>) -> (r: Vec<Candidate>)
    ensures
        r@.len() == proposals@.len(),
        forall|k: int|
            0 <= k < r@.len() ==> {
                &&& (#[trigger] r@[k]).cost == sat_add(cost as nat, proposals@[k].cost as nat)
                &&& r@[k].cost >= cost
                &&& r@[k].tree@ == apply_desc_v(t@, proposals@[k].edit@)
            },
{
    let mut r: Vec<Candidate> = Vec::new();
    let mut i: usize = 0;
    while i < proposals.len()
        invariant
            i <= proposals@.len(),
            r@.len() == i,
            forall|k: int|
                0 <= k < i ==> {
                    &&& (#[trigger] r@[k]).cost == sat_add(cost as nat, proposals@[k].cost as nat)
                    &&& r@[k].cost >= cost
                    &&& r@[k].tree@ == apply_desc_v(t@, proposals@[k].edit@)
                },
        decreases proposals@.len() - i,
    {
        let p = &proposals[i];
        r.push(Candidate { cost: add_saturating(cost, p.cost), tree: apply_descriptor(t, &p.edit) });
        i = i + 1;
    }
    r
}

/// Cost of an edit that has no natural similarity: a distance of 1.0.
pub const UNIT_DISTANCE: u64 = 1000000;

/// A `FROM` entry reads `table`.
pub open spec fn reads_table(from: Seq<TableV>, table: Seq<char>) -> bool {
    exists|k: int| 0 <= k < from.len() && crate::tree::same_name((#[trigger] from[k]).table_name, table)
}

/// Some `FROM` entry is named `n`, as table or as alias.
pub open spec fn names_in_from(from: Seq<TableV>, n: Seq<char>) -> bool {
    exists|k: int| 0 <= k < from.len() && crate::mutate::names_table(#[trigger] from[k], n)
}

/// `missing` is the alias of a `FROM` entry rather than a table name.
pub open spec fn is_alias_of_entry(from: Seq<TableV>, missing: Seq<char>) -> bool {
    match crate::locate::actual_table_v(from, missing) {
        Some(t) => !crate::tree::same_name(t, missing),
        None => false,
    }
}

/// The edit that an unknown relation `missing` gets for the candidate
/// relation `rel`: where `missing` is an alias, `rel` is added under that
/// alias; otherwise `missing` is renamed to `rel`.
pub open spec fn table_edit_v(from: Seq<TableV>, missing: Seq<char>, rel: Seq<char>) -> EditDescV {
    if is_alias_of_entry(from, missing) {
        EditDescV::AddTable(rel, missing)
    } else {
        EditDescV::RenameTable(missing, rel)
    }
}

/// One edit per similar table, its schema stripped, that the statement does
/// not name already (as table or alias), in the service's order.
pub open spec fn table_props_v(from: Seq<TableV>, missing: Seq<char>, sims: Seq<SimilarTable>, w: nat) -> Seq<(EditDescV, nat)>
    decreases sims.len(),
{
    if sims.len() == 0 {
        Seq::empty()
    } else {
        let rest = table_props_v(from, missing, sims.drop_last(), w);
        let s = sims.last();
        let rel = relation_of(s.table@);
        if names_in_from(from, rel) {
            rest
        } else {
            rest.push((table_edit_v(from, missing, rel), edit_cost_spec(s.distance as nat, w)))
        }
    }
}

fn names_in_from_exec(from: &Vec<TableInfo>, n: &str) -> (r: bool)
    ensures
        r == names_in_from(from@.map_values(|t: TableInfo| t@), n@),
{
    let ghost fv = from@.map_values(|t: TableInfo| t@);
    let mut i: usize = 0;
    while i < from.len()
        invariant
            i <= from@.len(),
            fv == from@.map_values(|t: TableInfo| t@),
            forall|k: int| 0 <= k < i ==> !crate::mutate::names_table(#[trigger] fv[k], n@),
        decreases from@.len() - i,
    {
        let e = &from[i];
        let hit = crate::tree::same_name_exec(e.table_name.as_str(), n) || match &e.alias {
            Some(a) => crate::tree::same_name_exec(a.as_str(), n),
            None => false,
        };
        proof {
            assert(fv[i as int] == e@);
        }
        if hit {
            return true;
        }
        i = i + 1;
    }
    false
}

pub open spec fn props_view(ps: Seq<Proposal>) -> Seq<(EditDescV, nat)> {
    ps.map_values(|p: Proposal| (p.edit@, p.cost as nat))
}

pub open spec fn distances_valid_t(sims: Seq<SimilarTable>) -> bool {
    forall|k: int| 0 <= k < sims.len() ==> (#[trigger] sims[k]).distance <= MAX_DISTANCE
}

pub open spec fn distances_valid_c(sims: Seq<SimilarColumn>) -> bool {
    forall|k: int| 0 <= k < sims.len() ==> (#[trigger] sims[k]).distance <= MAX_DISTANCE
}

fn reads_table_exec(from: &Vec<TableInfo>, table: &str) -> (r: bool)
    ensures
        r == reads_table(from@.map_values(|t: TableInfo| t@), table@),
{
    let ghost fv = from@.map_values(|t: TableInfo| t@);
    let mut i: usize = 0;
    while i < from.len()
        invariant
            i <= from@.len(),
            fv == from@.map_values(|t: TableInfo| t@),
            forall|k: int| 0 <= k < i ==> !crate::tree::same_name((#[trigger] fv[k]).table_name, table@),
        decreases from@.len() - i,
    {
        if crate::tree::same_name_exec(from[i].table_name.as_str(), table) {
            proof {
                assert(crate::tree::same_name(fv[i as int].table_name, table@));
            }
            return true;
        }
        i = i + 1;
    }
    false
}

/// Unknown relation `missing`: for each similar table (schema stripped)
/// that the statement does not name already, rename `missing` to it, or add
/// it under the alias `missing` where `missing` is an alias (see
/// `table_props_v`).
pub fn table_refinements(from: &Vec<TableInfo>, missing: &str, similar: &Vec<SimilarTable>, weight: u64) -> (r: Vec<Proposal>)
    requires
        distances_valid_t(similar@),
    ensures
        props_view(r@) == table_props_v(from@.map_values(|t: TableInfo| t@), missing@, similar@, weight as nat),
{
    let ghost fv = from@.map_values(|t: TableInfo| t@);
    let alias_case = match crate::locate::find_actual_table_name(from, missing) {
        Some(t) => !crate::tree::same_name_exec(t.as_str(), missing),
        None => false,
    };
    let mut r: Vec<Proposal> = Vec::new();
    let mut i: usize = 0;
    while i < similar.len()
        invariant
            i <= similar@.len(),
            distances_valid_t(similar@),
            fv == from@.map_values(|t: TableInfo| t@),
            alias_case == is_alias_of_entry(fv, missing@),
            props_view(r@) == table_props_v(fv, missing@, similar@.subrange(0, i as int), weight as nat),
        decreases similar@.len() - i,
    {
        let s = &similar[i];
        proof {
            assert(similar@.subrange(0, i + 1).drop_last() =~= similar@.subrange(0, i as int));
            assert(similar@.subrange(0, i + 1).last() == similar@[i as int]);
        }
        let rel = relation_name(s.table.as_str());
        if !names_in_from_exec(from, rel.as_str()) {
            let c = edit_cost(s.distance, weight);
            let ghost old_r = r@;
            let edit = if alias_case {
                Edit::AddTable { table: rel, alias: missing.to_owned() }
            } else {
                Edit::RenameTable { target: missing.to_owned(), replacement: rel }
            };
            let ghost ev = edit@;
            r.push(Proposal { edit, cost: c });
            proof {
                assert(ev == table_edit_v(fv, missing@, relation_of(s.table@)));
                assert(props_view(r@) =~= props_view(old_r).push((ev, c as nat)));
            }
        }
        i = i + 1;
    }
    proof {
        assert(similar@.subrange(0, similar@.len() as int) =~= similar@);
    }
    r
}

/// Unknown column `missing` (qualified by `qualifier`, if given): rename it
/// to each similar column.
pub fn column_refinements(qualifier: &Option<String>, missing: &str, similar: &Vec<SimilarColumn>, weight: u64) -> (r: Vec<Proposal>)
    requires
        distances_valid_c(similar@),
    ensures
        r@.len() == similar@.len(),
        forall|k: int| 0 <= k < r@.len() ==> {
            &&& (#[trigger] r@[k]).cost == edit_cost_spec(similar@[k].distance as nat, weight as nat)
            &&& r@[k].edit@ == EditDescV::Expr(EditV::RenameColumn(
                match qualifier { Some(q) => Some(q@), None => None }, missing@, similar@[k].column@))
        },
{
    let mut r: Vec<Proposal> = Vec::new();
    let mut i: usize = 0;
    while i < similar.len()
        invariant
            i <= similar@.len(),
            distances_valid_c(similar@),
            r@.len() == i,
            forall|k: int| 0 <= k < i ==> {
                &&& (#[trigger] r@[k]).cost == edit_cost_spec(similar@[k].distance as nat, weight as nat)
                &&& r@[k].edit@ == EditDescV::Expr(EditV::RenameColumn(
                    match qualifier { Some(q) => Some(q@), None => None }, missing@, similar@[k].column@))
            },
        decreases similar@.len() - i,
    {
        let s = &similar[i];
        let q = match qualifier {
            Some(q) => Some(q.clone()),
            None => None,
        };
        let d = ExprEdit::RenameColumn { qualifier: q, old: missing.to_owned(), new: s.column.clone() };
        r.push(Proposal { edit: Edit::Expr(d), cost: edit_cost(s.distance, weight) });
        i = i + 1;
    }
    r
}

/// Unknown column qualified by `old_ref`: read each similar table (schema
/// stripped) in place of the one referred to as `old_ref`.
pub fn table_for_column_refinements(old_ref: &str, similar: &Vec<SimilarTable>, weight: u64) -> (r: Vec<Proposal>)
    requires
        distances_valid_t(similar@),
    ensures
        r@.len() == similar@.len(),
        forall|k: int| 0 <= k < r@.len() ==> {
            &&& (#[trigger] r@[k]).cost == edit_cost_spec(similar@[k].distance as nat, weight as nat)
            &&& r@[k].edit@ == EditDescV::SwapTable(old_ref@, relation_of(similar@[k].table@))
        },
{
    let mut r: Vec<Proposal> = Vec::new();
    let mut i: usize = 0;
    while i < similar.len()
        invariant
            i <= similar@.len(),
            distances_valid_t(similar@),
            r@.len() == i,
            forall|k: int| 0 <= k < i ==> {
                &&& (#[trigger] r@[k]).cost == edit_cost_spec(similar@[k].distance as nat, weight as nat)
                &&& r@[k].edit@ == EditDescV::SwapTable(old_ref@, relation_of(similar@[k].table@))
            },
        decreases similar@.len() - i,
    {
        let s = &similar[i];
        let e = Edit::SwapTable { old_ref: old_ref.to_owned(), new_table: relation_name(s.table.as_str()) };
        r.push(Proposal { edit: e, cost: edit_cost(s.distance, weight) });
        i = i + 1;
    }
    r
}

/// Unknown column `old_table.old_column`: point it at each similar column of
/// another table.
pub fn qualifier_refinements(old_table: &str, old_column: &str, similar: &Vec<SimilarColumn>, weight: u64) -> (r: Vec<Proposal>)
    requires
        distances_valid_c(similar@),
    ensures
        r@.len() == similar@.len(),
        forall|k: int| 0 <= k < r@.len() ==> {
            &&& (#[trigger] r@[k]).cost == edit_cost_spec(similar@[k].distance as nat, weight as nat)
            &&& r@[k].edit@ == EditDescV::Expr(EditV::Retarget(old_table@, old_column@, similar@[k].table@, similar@[k].column@))
        },
{
    let mut r: Vec<Proposal> = Vec::new();
    let mut i: usize = 0;
    while i < similar.len()
        invariant
            i <= similar@.len(),
            distances_valid_c(similar@),
            r@.len() == i,
            forall|k: int| 0 <= k < i ==> {
                &&& (#[trigger] r@[k]).cost == edit_cost_spec(similar@[k].distance as nat, weight as nat)
                &&& r@[k].edit@ == EditDescV::Expr(EditV::Retarget(old_table@, old_column@, similar@[k].table@, similar@[k].column@))
            },
        decreases similar@.len() - i,
    {
        let s = &similar[i];
        let d = ExprEdit::Retarget {
            old_table: old_table.to_owned(),
            old_column: old_column.to_owned(),
            new_table: s.table.clone(),
            new_column: s.column.clone(),
        };
        r.push(Proposal { edit: Edit::Expr(d), cost: edit_cost(s.distance, weight) });
        i = i + 1;
    }
    r
}

/// One join insertion per condition of each joinable table, at that
/// table's distance, in the service's order.
pub open spec fn join_props_v(js: Seq<JoinableTable>, w: nat) -> Seq<(EditDescV, nat)>
    decreases js.len(),
{
    if js.len() == 0 {
        Seq::empty()
    } else {
        let j = js.last();
        join_props_v(js.drop_last(), w) + Seq::new(
            j.conditions@.len(),
            |k: int| (EditDescV::AddJoin(j.table@, j.conditions@[k]@), edit_cost_spec(j.distance as nat, w)),
        )
    }
}

/// Tables that the statement can join: add each with each of its conditions.
pub fn join_refinements(joinable: &Vec<JoinableTable>, weight: u64) -> (r: Vec<Proposal>)
    requires
        forall|k: int| 0 <= k < joinable@.len() ==> (#[trigger] joinable@[k]).distance <= MAX_DISTANCE,
    ensures
        props_view(r@) == join_props_v(joinable@, weight as nat),
{
    let mut r: Vec<Proposal> = Vec::new();
    let mut i: usize = 0;
    while i < joinable.len()
        invariant
            i <= joinable@.len(),
            forall|k: int| 0 <= k < joinable@.len() ==> (#[trigger] joinable@[k]).distance <= MAX_DISTANCE,
            props_view(r@) == join_props_v(joinable@.subrange(0, i as int), weight as nat),
        decreases joinable@.len() - i,
    {
        let j = &joinable[i];
        let c = edit_cost(j.distance, weight);
        let ghost before = props_view(r@);
        let ghost part = Seq::new(
            j.conditions@.len(),
            |k: int| (EditDescV::AddJoin(j.table@, j.conditions@[k]@), c as nat),
        );
        let mut m: usize = 0;
        while m < j.conditions.len()
            invariant
                m <= j.conditions@.len(),
                c == edit_cost_spec(j.distance as nat, weight as nat),
                props_view(r@) == before + part.subrange(0, m as int),
                part == Seq::new(
                    j.conditions@.len(),
                    |k: int| (EditDescV::AddJoin(j.table@, j.conditions@[k]@), c as nat),
                ),
            decreases j.conditions@.len() - m,
        {
            let ghost old_r = r@;
            let e = Edit::AddJoin { table: j.table.clone(), condition: copy_condition(&j.conditions[m]) };
            r.push(Proposal { edit: e, cost: c });
            proof {
                assert(props_view(r@) =~= props_view(old_r).push(part[m as int]));
                assert(part.subrange(0, m + 1) =~= part.subrange(0, m as int).push(part[m as int]));
            }
            m = m + 1;
        }
        proof {
            assert(part.subrange(0, part.len() as int) =~= part);
            let js = joinable@.subrange(0, i + 1);
            assert(js.drop_last() =~= joinable@.subrange(0, i as int));
            assert(js.last() == joinable@[i as int]);
        }
        i = i + 1;
    }
    proof {
        assert(joinable@.subrange(0, joinable@.len() as int) =~= joinable@);
    }
    r
}

/// Ambiguous column `column`: qualify it by each of `tables` (the `FROM`
/// tables that own such a column), named as the statement names them.
pub fn ambiguity_refinements(from: &Vec<TableInfo>, column: &str, tables: &Vec<String>, weight: u64) -> (r: Vec<Proposal>)
    requires
    ensures
        r@.len() == tables@.len(),
        forall|k: int| 0 <= k < r@.len() ==> {
            &&& (#[trigger] r@[k]).cost == edit_cost_spec(UNIT_DISTANCE as nat, weight as nat)
            &&& r@[k].edit@ == EditDescV::Expr(EditV::Qualify(column@,
                crate::catalog::reference_for(from@.map_values(|t: TableInfo| t@), tables@[k]@)))
        },
{
    let mut r: Vec<Proposal> = Vec::new();
    let c = edit_cost(UNIT_DISTANCE, weight);
    let mut i: usize = 0;
    while i < tables.len()
        invariant
            i <= tables@.len(),
            c == edit_cost_spec(UNIT_DISTANCE as nat, weight as nat),
            r@.len() == i,
            forall|k: int| 0 <= k < i ==> {
                &&& (#[trigger] r@[k]).cost == edit_cost_spec(UNIT_DISTANCE as nat, weight as nat)
                &&& r@[k].edit@ == EditDescV::Expr(EditV::Qualify(column@,
                    crate::catalog::reference_for(from@.map_values(|t: TableInfo| t@), tables@[k]@)))
            },
        decreases tables@.len() - i,
    {
        let table = crate::catalog::find_table_reference_name(from, tables[i].as_str());
        let d = ExprEdit::Qualify { column: column.to_owned(), table };
        r.push(Proposal { edit: Edit::Expr(d), cost: c });
        i = i + 1;
    }
    r
}

/// Operator type mismatch at `location`: each cast that the catalog says
/// makes the operator match.
pub fn typecast_refinements(location: i32, casts: &Vec<TypecastRefinement>, weight: u64) -> (r: Vec<Proposal>)
    requires
    ensures
        r@.len() == casts@.len(),
        forall|k: int| 0 <= k < r@.len() ==> {
            &&& (#[trigger] r@[k]).cost == edit_cost_spec(UNIT_DISTANCE as nat, weight as nat)
            &&& r@[k].edit@ == EditDescV::Expr(EditV::CastOperand(location, casts@[k].cast_position, casts@[k].target_type@))
        },
{
    let mut r: Vec<Proposal> = Vec::new();
    let c = edit_cost(UNIT_DISTANCE, weight);
    let mut i: usize = 0;
    while i < casts.len()
        invariant
            i <= casts@.len(),
            c == edit_cost_spec(UNIT_DISTANCE as nat, weight as nat),
            r@.len() == i,
            forall|k: int| 0 <= k < i ==> {
                &&& (#[trigger] r@[k]).cost == edit_cost_spec(UNIT_DISTANCE as nat, weight as nat)
                &&& r@[k].edit@ == EditDescV::Expr(EditV::CastOperand(location, casts@[k].cast_position, casts@[k].target_type@))
            },
        decreases casts@.len() - i,
    {
        let d = ExprEdit::CastOperand {
            location,
            side: casts[i].cast_position,
            target_type: casts[i].target_type.clone(),
        };
        r.push(Proposal { edit: Edit::Expr(d), cost: c });
        i = i + 1;
    }
    r
}

/// Unknown function `old` called at `location`: rename it to each similar
/// function of the same arity.
pub fn function_name_refinements(location: i32, old: &str, similar: &Vec<SimilarFunction>, weight: u64) -> (r: Vec<Proposal>)
    requires
        forall|k: int| 0 <= k < similar@.len() ==> (#[trigger] similar@[k]).distance <= MAX_DISTANCE,
    ensures
        r@.len() == similar@.len(),
        forall|k: int| 0 <= k < r@.len() ==> {
            &&& (#[trigger] r@[k]).cost == edit_cost_spec(similar@[k].distance as nat, weight as nat)
            &&& r@[k].edit@ == EditDescV::Expr(EditV::RenameFunction(location, old@, similar@[k].name@))
        },
{
    let mut r: Vec<Proposal> = Vec::new();
    let mut i: usize = 0;
    while i < similar.len()
        invariant
            i <= similar@.len(),
            forall|k: int| 0 <= k < similar@.len() ==> (#[trigger] similar@[k]).distance <= MAX_DISTANCE,
            r@.len() == i,
            forall|k: int| 0 <= k < i ==> {
                &&& (#[trigger] r@[k]).cost == edit_cost_spec(similar@[k].distance as nat, weight as nat)
                &&& r@[k].edit@ == EditDescV::Expr(EditV::RenameFunction(location, old@, similar@[k].name@))
            },
        decreases similar@.len() - i,
    {
        let d = ExprEdit::RenameFunction { location, old: old.to_owned(), new: similar[i].name.clone() };
        r.push(Proposal { edit: Edit::Expr(d), cost: edit_cost(similar[i].distance, weight) });
        i = i + 1;
    }
    r
}

/// Unknown function called at `location` (one before the error cursor):
/// replace argument `index` by each compatible column.
pub fn argument_refinements(location: i32, index: usize, similar: &Vec<SimilarColumn>, weight: u64) -> (r: Vec<Proposal>)
    requires
        distances_valid_c(similar@),
    ensures
        r@.len() == similar@.len(),
        forall|k: int| 0 <= k < r@.len() ==> {
            &&& (#[trigger] r@[k]).cost == edit_cost_spec(similar@[k].distance as nat, weight as nat)
            &&& r@[k].edit@ == EditDescV::Expr(EditV::ReplaceArgument(location, index as nat, similar@[k].table@, similar@[k].column@))
        },
{
    let mut r: Vec<Proposal> = Vec::new();
    let mut i: usize = 0;
    while i < similar.len()
        invariant
            i <= similar@.len(),
            distances_valid_c(similar@),
            r@.len() == i,
            forall|k: int| 0 <= k < i ==> {
                &&& (#[trigger] r@[k]).cost == edit_cost_spec(similar@[k].distance as nat, weight as nat)
                &&& r@[k].edit@ == EditDescV::Expr(EditV::ReplaceArgument(location, index as nat, similar@[k].table@, similar@[k].column@))
            },
        decreases similar@.len() - i,
    {
        let d = ExprEdit::ReplaceArgument {
            location,
            index,
            table: similar[i].table.clone(),
            column: similar[i].column.clone(),
        };
        r.push(Proposal { edit: Edit::Expr(d), cost: edit_cost(similar[i].distance, weight) });
        i = i + 1;
    }
    r
}

/// A literal of the statement and the nearest sample value of its column.
#[derive(Debug)]
pub struct ValueMatch {
    pub literal: String,
    /// Location of the literal in the statement.
    pub location: i32,
    pub value: String,
    pub distance: u64,
}

pub open spec fn sum_distances(ms: Seq<ValueMatch>) -> nat
    decreases ms.len(),
{
    if ms.len() == 0 {
        0
    } else {
        sum_distances(ms.drop_last()) + ms.last().distance as nat
    }
}

/// Cost of a value refinement: `round(Σ distances × 100 × weight)`, or the
/// largest `u64` where it exceeds that.
pub open spec fn value_cost_v(ms: Seq<ValueMatch>, w: nat) -> nat {
    let c = edit_cost_spec(sum_distances(ms), w);
    if c > u64::MAX {
        u64::MAX as nat
    } else {
        c
    }
}

/// Empty result: one candidate that replaces the literal of each matched
/// equality (at its own location) by that equality's nearest sample value,
/// all in one edit; none where nothing matched.
pub fn value_refinement(matches: &Vec<ValueMatch>, weight: u64) -> (r: Option<Proposal>)
    requires
        forall|k: int| 0 <= k < matches@.len() ==> (#[trigger] matches@[k]).distance <= MAX_DISTANCE,
    ensures
        matches@.len() == 0 <==> r is None,
        match r {
            Some(p) => p.cost == value_cost_v(matches@, weight as nat) && p.edit@ == EditDescV::Sequence(
                Seq::new(matches@.len(), |k: int| EditV::ReplaceEqualityText(matches@[k].location, matches@[k].literal@, matches@[k].value@)),
            ),
            None => true,
        },
{
    if matches.len() == 0 {
        return None;
    }
    let mut edits: Vec<ExprEdit> = Vec::new();
    let mut sum: u128 = 0;
    let mut i: usize = 0;
    while i < matches.len()
        invariant
            i <= matches@.len(),
            forall|k: int| 0 <= k < matches@.len() ==> (#[trigger] matches@[k]).distance <= MAX_DISTANCE,
            sum == sum_distances(matches@.subrange(0, i as int)),
            sum <= i * MAX_DISTANCE,
            edits@.len() == i,
            forall|k: int| 0 <= k < i ==> (#[trigger] edits@[k])@ == EditV::ReplaceEqualityText(matches@[k].location, matches@[k].literal@, matches@[k].value@),
        decreases matches@.len() - i,
    {
        proof {
            let ms = matches@.subrange(0, i + 1);
            assert(ms.drop_last() =~= matches@.subrange(0, i as int));
            assert(ms.last() == matches@[i as int]);
            assert(i * MAX_DISTANCE + MAX_DISTANCE == (i + 1) * MAX_DISTANCE) by (nonlinear_arith);
            assert((i + 1) * MAX_DISTANCE <= usize::MAX as int * MAX_DISTANCE) by (nonlinear_arith)
                requires i < usize::MAX;
        }
        sum = sum + matches[i].distance as u128;
        edits.push(ExprEdit::ReplaceEqualityText {
            location: matches[i].location,
            old: matches[i].literal.clone(),
            new: matches[i].value.clone(),
        });
        i = i + 1;
    }
    proof {
        assert(matches@.subrange(0, matches@.len() as int) =~= matches@);
        assert(edits@.map_values(|d: ExprEdit| d@) =~= Seq::new(
            matches@.len(),
            |k: int| EditV::ReplaceEqualityText(matches@[k].location, matches@[k].literal@, matches@[k].value@),
        ));
    }
    let cost: u64 = match sum.checked_mul(weight as u128) {
        Some(p) => {
            if p > u128::MAX - 5000000 {
                proof {
                    assert((p as int + 5000000) / 10000000 > u64::MAX) by (nonlinear_arith)
                        requires p > u128::MAX - 5000000;
                }
                u64::MAX
            } else {
                let total: u128 = (p + 5000000) / 10000000;
                if total > u64::MAX as u128 {
                    u64::MAX
                } else {
                    total as u64
                }
            }
        },
        None => {
            proof {
                assert((sum as int * weight as int + 5000000) / 10000000 > u64::MAX) by (nonlinear_arith)
                    requires sum as int * weight as int > u128::MAX;
            }
            u64::MAX
        },
    };
    Some(Proposal { edit: Edit::Sequence(edits), cost })
}

pub open spec fn is_blank(c: char) -> bool {
    c == ' ' || c == '\t' || c == '\n' || c == '\r'
}

pub open spec fn is_quote(c: char) -> bool {
    c == '\'' || c == '"'
}

pub open spec fn strippable(c: char, quotes: bool) -> bool {
    if quotes {
        is_quote(c)
    } else {
        is_blank(c)
    }
}

pub open spec fn strip_start(s: Seq<char>, i: int, quotes: bool) -> int
    decreases s.len() - i,
{
    if 0 <= i < s.len() && strippable(s[i], quotes) {
        strip_start(s, i + 1, quotes)
    } else {
        i
    }
}

pub open spec fn strip_end(s: Seq<char>, j: int, lo: int, quotes: bool) -> int
    decreases j - lo,
{
    if lo < j <= s.len() && strippable(s[j - 1], quotes) {
        strip_end(s, j - 1, lo, quotes)
    } else {
        j
    }
}

/// `s` without leading and trailing blanks (or quotes, when `quotes`).
pub open spec fn strip(s: Seq<char>, quotes: bool) -> Seq<char> {
    let a = strip_start(s, 0, quotes);
    s.subrange(a, strip_end(s, s.len() as int, a, quotes))
}

/// The `date_part` field that a strftime directive stands for.
pub open spec fn datepart_of(f: Seq<char>) -> Option<Seq<char>> {
    if f == "%Y"@ || f == "%y"@ {
        Some("year"@)
    } else if f == "%m"@ {
        Some("month"@)
    } else if f == "%d"@ {
        Some("day"@)
    } else if f == "%H"@ {
        Some("hour"@)
    } else if f == "%M"@ {
        Some("minute"@)
    } else if f == "%S"@ {
        Some("second"@)
    } else if f == "%w"@ {
        Some("dow"@)
    } else if f == "%j"@ {
        Some("doy"@)
    } else if f == "%U"@ || f == "%W"@ {
        Some("week"@)
    } else if f == "%c"@ || f == "%s"@ {
        Some("epoch"@)
    } else if f == "%z"@ {
        Some("timezone"@)
    } else if f == "%Z"@ {
        Some("timezone_abbrev"@)
    } else {
        None
    }
}

fn strippable_exec(c: char, quotes: bool) -> (r: bool)
    ensures
        r == strippable(c, quotes),
{
    if quotes {
        c == '\'' || c == '"'
    } else {
        c == ' ' || c == '\t' || c == '\n' || c == '\r'
    }
}

pub fn strip_exec(s: &str, quotes: bool) -> (r: &str)
    ensures
        r@ == strip(s@, quotes),
{
    let n = s.unicode_len();
    let mut a: usize = 0;
    while a < n && strippable_exec(s.get_char(a), quotes)
        invariant
            n == s@.len(),
            a <= n,
            strip_start(s@, 0, quotes) == strip_start(s@, a as int, quotes),
        decreases n - a,
    {
        a = a + 1;
    }
    let mut b: usize = n;
    while b > a && strippable_exec(s.get_char(b - 1), quotes)
        invariant
            n == s@.len(),
            a <= b <= n,
            a == strip_start(s@, 0, quotes),
            strip_end(s@, n as int, a as int, quotes) == strip_end(s@, b as int, a as int, quotes),
        decreases b - a,
    {
        b = b - 1;
    }
    s.substring_char(a, b)
}

/// The `date_part` field for a strftime format literal (blanks and then
/// quotes around it ignored); `None` for any other text.
pub fn strftime_to_datepart(format_str: &str) -> (r: Option<String>)
    ensures
        match r {
            Some(f) => datepart_of(strip(strip(format_str@, false), true)) == Some(f@),
            None => datepart_of(strip(strip(format_str@, false), true)) is None,
        },
{
    let t = strip_exec(strip_exec(format_str, false), true);
    let same = |a: &str, b: &str| -> (r: bool)
        ensures r == (a@ == b@)
    { crate::parser::same_text(a, b) };
    let f = if same(t, "%Y") || same(t, "%y") {
        "year"
    } else if same(t, "%m") {
        "month"
    } else if same(t, "%d") {
        "day"
    } else if same(t, "%H") {
        "hour"
    } else if same(t, "%M") {
        "minute"
    } else if same(t, "%S") {
        "second"
    } else if same(t, "%w") {
        "dow"
    } else if same(t, "%j") {
        "doy"
    } else if same(t, "%U") || same(t, "%W") {
        "week"
    } else if same(t, "%c") || same(t, "%s") {
        "epoch"
    } else if same(t, "%z") {
        "timezone"
    } else if same(t, "%Z") {
        "timezone_abbrev"
    } else {
        return None;
    };
    Some(f.to_owned())
}

/// Executor rejected the format literal `format_str`: rewrite that literal
/// to the `date_part` field it stands for; none where it stands for none.
pub fn format_refinement(format_str: &str, weight: u64) -> (r: Option<Proposal>)
    requires
    ensures
        match datepart_of(strip(strip(format_str@, false), true)) {
            Some(field) => r is Some && r->0.edit@ == EditDescV::Expr(EditV::ReplaceText(format_str@, field))
                && r->0.cost == edit_cost_spec(UNIT_DISTANCE as nat, weight as nat),
            None => r is None,
        },
{
    match strftime_to_datepart(format_str) {
        Some(field) => {
            let d = ExprEdit::ReplaceText { old: format_str.to_owned(), new: field };
            Some(Proposal { edit: Edit::Expr(d), cost: edit_cost(UNIT_DISTANCE, weight) })
        },
        None => None,
    }
}

/// The edit that puts `table.column` in place of the operand `op`: a
/// qualified operand is retargeted, an unqualified one renamed.
pub open spec fn operand_edit_v(op: &ColumnOperand, table: Seq<char>, column: Seq<char>) -> EditV {
    match op.table_name {
        Some(t) => EditV::Retarget(t@, op.column_name@, table, column),
        None => EditV::RenameColumn(None, op.column_name@, column),
    }
}

/// Operator type mismatch or empty result: replace the column operand `op`
/// everywhere by each compatible column.
pub fn operand_column_refinements(op: &ColumnOperand, similar: &Vec<SimilarColumn>, weight: u64) -> (r: Vec<Proposal>)
    requires
        distances_valid_c(similar@),
    ensures
        r@.len() == similar@.len(),
        forall|k: int| 0 <= k < r@.len() ==> {
            &&& (#[trigger] r@[k]).cost == edit_cost_spec(similar@[k].distance as nat, weight as nat)
            &&& r@[k].edit@ == EditDescV::Expr(operand_edit_v(op, similar@[k].table@, similar@[k].column@))
        },
{
    let mut r: Vec<Proposal> = Vec::new();
    let mut i: usize = 0;
    while i < similar.len()
        invariant
            i <= similar@.len(),
            distances_valid_c(similar@),
            r@.len() == i,
            forall|k: int| 0 <= k < i ==> {
                &&& (#[trigger] r@[k]).cost == edit_cost_spec(similar@[k].distance as nat, weight as nat)
                &&& r@[k].edit@ == EditDescV::Expr(operand_edit_v(op, similar@[k].table@, similar@[k].column@))
            },
        decreases similar@.len() - i,
    {
        let s = &similar[i];
        let d = match &op.table_name {
            Some(t) => ExprEdit::Retarget {
                old_table: t.clone(),
                old_column: op.column_name.clone(),
                new_table: s.table.clone(),
                new_column: s.column.clone(),
            },
            None => ExprEdit::RenameColumn { qualifier: None, old: op.column_name.clone(), new: s.column.clone() },
        };
        r.push(Proposal { edit: Edit::Expr(d), cost: edit_cost(s.distance, weight) });
        i = i + 1;
    }
    r
}

/// Unknown function called at `location`: each argument cast that the
/// catalog says makes a signature of the same name match.
pub fn function_typecast_refinements(location: i32, casts: &Vec<FunctionTypecastRefinement>, weight: u64) -> (r: Vec<Proposal>)
    requires
    ensures
        r@.len() == casts@.len(),
        forall|k: int| 0 <= k < r@.len() ==> {
            &&& (#[trigger] r@[k]).cost == edit_cost_spec(UNIT_DISTANCE as nat, weight as nat)
            &&& r@[k].edit@ == EditDescV::Expr(EditV::CastArgument(location, casts@[k].cast_position.index as nat, casts@[k].target_type@))
        },
{
    let mut r: Vec<Proposal> = Vec::new();
    let c = edit_cost(UNIT_DISTANCE, weight);
    let mut i: usize = 0;
    while i < casts.len()
        invariant
            i <= casts@.len(),
            c == edit_cost_spec(UNIT_DISTANCE as nat, weight as nat),
            r@.len() == i,
            forall|k: int| 0 <= k < i ==> {
                &&& (#[trigger] r@[k]).cost == edit_cost_spec(UNIT_DISTANCE as nat, weight as nat)
                &&& r@[k].edit@ == EditDescV::Expr(EditV::CastArgument(location, casts@[k].cast_position.index as nat, casts@[k].target_type@))
            },
        decreases casts@.len() - i,
    {
        let d = ExprEdit::CastArgument {
            location,
            index: casts[i].cast_position.index,
            target_type: casts[i].target_type.clone(),
        };
        r.push(Proposal { edit: Edit::Expr(d), cost: c });
        i = i + 1;
    }
    r
}

pub open spec fn keeps_column(from: Seq<TableV>, qualifier: Seq<char>, s: SimilarColumn) -> bool {
    !crate::tree::same_name(s.table@, qualifier) && reads_table(from, s.table@)
}

/// The similar columns that belong to another table of the statement than
/// the one named `qualifier`, in order.
pub open spec fn other_columns_v(from: Seq<TableV>, qualifier: Seq<char>, sims: Seq<SimilarColumn>) -> Seq<SimilarColumn>
    decreases sims.len(),
{
    if sims.len() == 0 {
        Seq::empty()
    } else {
        let r = other_columns_v(from, qualifier, sims.drop_last());
        if keeps_column(from, qualifier, sims.last()) {
            r.push(sims.last())
        } else {
            r
        }
    }
}

pub open spec fn column_key(s: SimilarColumn) -> (Seq<char>, Seq<char>, u64) {
    (s.column@, s.table@, s.distance)
}

/// Qualifier retarget candidates: the similar columns of the statement's
/// other tables.
pub fn columns_of_other_tables(from: &Vec<TableInfo>, qualifier: &str, similar: &Vec<SimilarColumn>) -> (r: Vec<SimilarColumn>)
    ensures
        r@.map_values(|s: SimilarColumn| column_key(s)) == other_columns_v(from@.map_values(|t: TableInfo| t@), qualifier@, similar@).map_values(|s: SimilarColumn| column_key(s)),
{
    let ghost fv = from@.map_values(|t: TableInfo| t@);
    let mut r: Vec<SimilarColumn> = Vec::new();
    let mut i: usize = 0;
    proof {
        assert(r@.map_values(|s: SimilarColumn| column_key(s)) =~= other_columns_v(fv, qualifier@, similar@.subrange(0, 0)).map_values(|s: SimilarColumn| column_key(s)));
    }
    while i < similar.len()
        invariant
            i <= similar@.len(),
            fv == from@.map_values(|t: TableInfo| t@),
            r@.map_values(|s: SimilarColumn| column_key(s)) == other_columns_v(fv, qualifier@, similar@.subrange(0, i as int)).map_values(|s: SimilarColumn| column_key(s)),
        decreases similar@.len() - i,
    {
        let s = &similar[i];
        proof {
            let p = similar@.subrange(0, i + 1);
            assert(p.drop_last() =~= similar@.subrange(0, i as int));
            assert(p.last() == similar@[i as int]);
        }
        let ghost before = r@;
        if !crate::tree::same_name_exec(s.table.as_str(), qualifier) && reads_table_exec(from, s.table.as_str()) {
            r.push(SimilarColumn { column: s.column.clone(), table: s.table.clone(), distance: s.distance });
            proof {
                let prev = other_columns_v(fv, qualifier@, similar@.subrange(0, i as int));
                assert(r@.map_values(|x: SimilarColumn| column_key(x)) =~= before.map_values(|x: SimilarColumn| column_key(x)).push(column_key(*s)));
                assert(prev.push(*s).map_values(|x: SimilarColumn| column_key(x)) =~= prev.map_values(|x: SimilarColumn| column_key(x)).push(column_key(*s)));
            }
        }
        i = i + 1;
    }
    proof {
        assert(similar@.subrange(0, similar@.len() as int) =~= similar@);
    }
    r
}

} // verus!
