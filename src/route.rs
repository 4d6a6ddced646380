//! Which refinement families an analyzer or executor outcome calls for,
//! under the tunables.

use vstd::prelude::*;
use crate::classify::{CaseV, RepairCase};
use crate::generate::Weights;

verus! {

/// A family of refinements, each served by one generator.
#[derive(Debug, Clone, Copy, PartialEq, Eq, Structural)]
pub enum Family {
    /// Rename the unknown relation.
    TableRename,
    /// Rename every `FROM` table to similar ones.
    TableRenameAll,
    ColumnRename,
    /// Swap the table that qualifies the unknown column.
    TableForColumn,
    QualifierRetarget,
    Join,
    OperandColumn,
    OperandTableForColumn,
    OperandQualifier,
    OperandTypecast,
    ArgumentColumn,
    ArgumentTypecast,
    FunctionName,
    Ambiguity,
    Value,
    FormatString,
}

/// The on/off switches of the refinement classes.
#[derive(Debug, Clone, Copy)]
pub struct Switches {
    pub refinement: bool,
    pub table: bool,
    pub column: bool,
    pub table_for_column: bool,
    pub qualifier: bool,
    pub join: bool,
    pub operand_column: bool,
    pub operand_table_for_column: bool,
    pub operand_qualifier: bool,
    pub operand_typecast: bool,
    pub argument_column: bool,
    pub argument_typecast: bool,
    pub function_name: bool,
    pub ambiguity: bool,
    pub value: bool,
    pub type_pruning: bool,
}

/// All tunables of the search.
#[derive(Debug, Clone, Copy)]
pub struct Tunables {
    pub switches: Switches,
    pub max_hop: u64,
    pub max_num: u64,
    pub top_k_expansion: u64,
    pub value_refinement_samples: u64,
    pub weights: Weights,
    pub search_cache: bool,
}

impl Tunables {
    /// Every class on, `max_hop` 5, `max_num` 300, `top_k_expansion` 3,
    /// 1,000,000 value samples, the shipped weights, the cache on.
    pub fn defaults() -> (r: Tunables)
        ensures
            r.max_hop == 5 && r.max_num == 300 && r.top_k_expansion == 3
                && r.value_refinement_samples == 1000000 && r.search_cache,
            r.switches.refinement && r.switches.table && r.switches.column && r.switches.table_for_column
                && r.switches.qualifier && r.switches.join && r.switches.operand_column
                && r.switches.operand_table_for_column && r.switches.operand_qualifier
                && r.switches.operand_typecast && r.switches.argument_column
                && r.switches.argument_typecast && r.switches.function_name && r.switches.ambiguity
                && r.switches.value && r.switches.type_pruning,
            r.weights.table == 1000 && r.weights.column == 1000 && r.weights.table_for_column == 1000
                && r.weights.qualifier == 1000 && r.weights.join == 2000 && r.weights.operand == 1000
                && r.weights.typecast == 100 && r.weights.argument == 1000 && r.weights.function_name
                == 1000 && r.weights.ambiguity == 0 && r.weights.value == 1000,
    {
        Tunables {
            switches: Switches {
                refinement: true,
                table: true,
                column: true,
                table_for_column: true,
                qualifier: true,
                join: true,
                operand_column: true,
                operand_table_for_column: true,
                operand_qualifier: true,
                operand_typecast: true,
                argument_column: true,
                argument_typecast: true,
                function_name: true,
                ambiguity: true,
                value: true,
                type_pruning: true,
            },
            max_hop: 5,
            max_num: 300,
            top_k_expansion: 3,
            value_refinement_samples: 1000000,
            weights: Weights::shipped(),
            search_cache: true,
        }
    }
}

/// `seq![f]` when `on`, else nothing.
pub open spec fn when(on: bool, f: Family) -> Seq<Family> {
    if on {
        seq![f]
    } else {
        Seq::empty()
    }
}

/// The families an analyzer error calls for, in the order they are tried.
/// `function_exists` says whether the catalog knows the function named by
/// an unknown-function error.
pub open spec fn families_for_case_v(c: CaseV, function_exists: bool, s: Switches) -> Seq<Family> {
    if !s.refinement {
        Seq::empty()
    } else {
        match c {
            CaseV::UnknownRelation(_) => when(s.table, Family::TableRename),
            CaseV::UnknownColumn(t, _) => when(s.column, Family::ColumnRename) + when(
                s.table_for_column,
                if t is Some {
                    Family::TableForColumn
                } else {
                    Family::TableRenameAll
                },
            ) + when(s.qualifier && t is Some, Family::QualifierRetarget) + when(s.join, Family::Join),
            CaseV::UnknownFunction(_, _, _) => when(function_exists && s.argument_column, Family::ArgumentColumn)
                + when(function_exists && s.argument_typecast, Family::ArgumentTypecast) + when(
                s.function_name,
                Family::FunctionName,
            ),
            CaseV::OperatorMismatch(_, _) => when(s.operand_column, Family::OperandColumn) + when(
                s.operand_table_for_column,
                Family::OperandTableForColumn,
            ) + when(s.operand_qualifier, Family::OperandQualifier) + when(
                s.operand_typecast,
                Family::OperandTypecast,
            ),
            CaseV::AmbiguousColumn(_) => when(s.ambiguity, Family::Ambiguity),
            CaseV::NoRepair => Seq::empty(),
        }
    }
}

fn push_when(v: &mut Vec<Family>, on: bool, f: Family)
    ensures
        final(v)@ == old(v)@ + when(on, f),
{
    if on {
        v.push(f);
    } else {
        proof {
            assert(old(v)@ + when(on, f) =~= old(v)@);
        }
    }
}

/// The families an analyzer error calls for.
pub fn families_for_case(c: &RepairCase, function_exists: bool, s: &Switches) -> (r: Vec<Family>)
    ensures
        r@ == families_for_case_v(c@, function_exists, *s),
{
    let mut v: Vec<Family> = Vec::new();
    if !s.refinement {
        proof {
            assert(v@ =~= Seq::<Family>::empty());
        }
        return v;
    }
    let ghost e = Seq::<Family>::empty();
    match c {
        RepairCase::UnknownRelation(_) => {
            push_when(&mut v, s.table, Family::TableRename);
            proof { assert(v@ =~= when(s.table, Family::TableRename)); }
        },
        RepairCase::UnknownColumn(t, _) => {
            push_when(&mut v, s.column, Family::ColumnRename);
            push_when(&mut v, s.table_for_column, if t.is_some() { Family::TableForColumn } else { Family::TableRenameAll });
            push_when(&mut v, s.qualifier && t.is_some(), Family::QualifierRetarget);
            push_when(&mut v, s.join, Family::Join);
            proof { assert(v@ =~= families_for_case_v(c@, function_exists, *s)); }
        },
        RepairCase::UnknownFunction(_, _, _) => {
            push_when(&mut v, function_exists && s.argument_column, Family::ArgumentColumn);
            push_when(&mut v, function_exists && s.argument_typecast, Family::ArgumentTypecast);
            push_when(&mut v, s.function_name, Family::FunctionName);
            proof { assert(v@ =~= families_for_case_v(c@, function_exists, *s)); }
        },
        RepairCase::OperatorMismatch(_, _) => {
            push_when(&mut v, s.operand_column, Family::OperandColumn);
            push_when(&mut v, s.operand_table_for_column, Family::OperandTableForColumn);
            push_when(&mut v, s.operand_qualifier, Family::OperandQualifier);
            push_when(&mut v, s.operand_typecast, Family::OperandTypecast);
            proof { assert(v@ =~= families_for_case_v(c@, function_exists, *s)); }
        },
        RepairCase::AmbiguousColumn(_) => {
            push_when(&mut v, s.ambiguity, Family::Ambiguity);
            proof { assert(v@ =~= when(s.ambiguity, Family::Ambiguity)); }
        },
        RepairCase::NoRepair => {
            proof { assert(v@ =~= e); }
        },
    }
    v
}

/// What running an analyzed candidate gave.
#[derive(Debug, Clone, Copy, PartialEq, Eq, Structural)]
pub enum Execution {
    /// At least one row: the candidate is the repair.
    Rows,
    /// No rows.
    Empty,
    /// An "invalid parameter value" error that names a format literal.
    FormatError,
    /// Any other error: the candidate is dropped.
    Failed,
}

/// The families an execution outcome calls for.
pub open spec fn families_for_execution_v(x: Execution, s: Switches) -> Seq<Family> {
    if !s.refinement {
        Seq::empty()
    } else {
        match x {
            Execution::Empty => when(s.value, Family::Value) + when(s.table, Family::TableRenameAll)
                + when(s.operand_column, Family::OperandColumn) + when(
                s.operand_table_for_column,
                Family::OperandTableForColumn,
            ) + when(s.operand_qualifier, Family::OperandQualifier) + when(
                s.operand_typecast,
                Family::OperandTypecast,
            ) + when(s.join, Family::Join),
            Execution::FormatError => when(s.function_name, Family::FormatString),
            _ => Seq::empty(),
        }
    }
}

/// The families an execution outcome calls for: on an empty result the
/// value, table, operand (over the `WHERE` equalities) and join families;
/// on a format error the format-string family; otherwise none.
pub fn families_for_execution(x: Execution, s: &Switches) -> (r: Vec<Family>)
    ensures
        r@ == families_for_execution_v(x, *s),
{
    let mut v: Vec<Family> = Vec::new();
    if s.refinement {
        match x {
            Execution::Empty => {
                push_when(&mut v, s.value, Family::Value);
                push_when(&mut v, s.table, Family::TableRenameAll);
                push_when(&mut v, s.operand_column, Family::OperandColumn);
                push_when(&mut v, s.operand_table_for_column, Family::OperandTableForColumn);
                push_when(&mut v, s.operand_qualifier, Family::OperandQualifier);
                push_when(&mut v, s.operand_typecast, Family::OperandTypecast);
                push_when(&mut v, s.join, Family::Join);
            },
            Execution::FormatError => {
                push_when(&mut v, s.function_name, Family::FormatString);
            },
            _ => {},
        }
    }
    proof {
        assert(v@ =~= families_for_execution_v(x, *s));
    }
    v
}

} // verus!
