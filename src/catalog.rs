//! What the catalog similarity service answers, as plain values, and the
//! lookups on a `FROM` list that turn its answers into edits.
//!
//! Distances are embedding distances in millionths (a distance of 0.25 is
//! 250000); they lie between 0 and 2000000.

use vstd::prelude::*;
use crate::mutate::OperandPosition;
use crate::parser::same_text;
use crate::tree::{TableInfo, TableV, same_name, same_name_exec};

verus! {

/// The largest distance the service reports, in millionths.
pub const MAX_DISTANCE: u64 = 2000000;

/// A column operand found in an expression.
#[derive(Debug)]
pub struct ColumnOperand {
    pub table_name: Option<String>,
    pub column_name: String,
}

/// An argument position of a function call.
#[derive(Debug, Clone, Copy, PartialEq, Eq, Structural)]
pub struct ArgumentPosition {
    pub index: usize,
}

/// A cast of one operand that makes an operator signature match.
#[derive(Debug)]
pub struct TypecastRefinement {
    pub cast_position: OperandPosition,
    pub target_type: String,
    /// The type of the other operand, which stays as it is.
    pub fixed_type: Option<String>,
}

/// A cast of one argument that makes a function signature match.
#[derive(Debug)]
pub struct FunctionTypecastRefinement {
    pub cast_position: ArgumentPosition,
    pub target_type: String,
    pub compatible_arg_types: String,
}

/// An operator and its operand types, as an analyzer error names them.
#[derive(Debug)]
pub struct OperatorInfo {
    pub operator_name: String,
    pub left_type: Option<String>,
    pub right_type: Option<String>,
}

/// A function and its argument types, as an analyzer error names them.
#[derive(Debug)]
pub struct FunctionInfo {
    pub function_name: String,
    pub arg_types: Vec<String>,
}

/// `left_table.left_column = right_table.right_column`, where `left_table`
/// is already in the statement and `right_table` is to be joined.
#[derive(Debug)]
pub struct JoinCondition {
    pub left_table: String,
    pub left_column: String,
    pub right_table: String,
    pub right_column: String,
}

/// Model of a [`JoinCondition`].
pub struct JoinConditionV {
    pub left_table: Seq<char>,
    pub left_column: Seq<char>,
    pub right_table: Seq<char>,
    pub right_column: Seq<char>,
}

impl View for JoinCondition {
    type V = JoinConditionV;

    open spec fn view(&self) -> JoinConditionV {
        JoinConditionV {
            left_table: self.left_table@,
            left_column: self.left_column@,
            right_table: self.right_table@,
            right_column: self.right_column@,
        }
    }
}

/// A copy of `c`.
pub fn copy_condition(c: &JoinCondition) -> (r: JoinCondition)
    ensures
        r@ == c@,
{
    JoinCondition {
        left_table: c.left_table.clone(),
        left_column: c.left_column.clone(),
        right_table: c.right_table.clone(),
        right_column: c.right_column.clone(),
    }
}

/// A table close to a name, with its distance.
#[derive(Debug)]
pub struct SimilarTable {
    pub table: String,
    pub distance: u64,
}

/// A column close to a name, the table that owns it, and its distance.
#[derive(Debug)]
pub struct SimilarColumn {
    pub column: String,
    pub table: String,
    pub distance: u64,
}

/// A table that can be joined to the statement, with its distance and the
/// conditions that join it.
#[derive(Debug)]
pub struct JoinableTable {
    pub table: String,
    pub distance: u64,
    pub conditions: Vec<JoinCondition>,
}

/// A function close to a name.
#[derive(Debug)]
pub struct SimilarFunction {
    pub name: String,
    pub distance: u64,
}

/// The name by which `from` refers to `table`: the alias of the first entry
/// whose table name is `table` (up to ASCII case), if that entry has one;
/// otherwise `table` itself, unchanged.
pub open spec fn reference_for(from: Seq<TableV>, table: Seq<char>) -> Seq<char>
    decreases from.len(),
{
    if from.len() == 0 {
        table
    } else if same_name(from[0].table_name, table) {
        match from[0].alias {
            Some(a) => a,
            None => table,
        }
    } else {
        reference_for(from.drop_first(), table)
    }
}

/// The name by which `from_tables` refers to `table_name`: the alias of the
/// first matching entry if it has one, else `table_name` unchanged.
pub fn find_table_reference_name(from_tables: &Vec<TableInfo>, table_name: &str) -> (r: String)
    ensures
        r@ == reference_for(from_tables@.map_values(|t: TableInfo| t@), table_name@),
{
    let ghost fv = from_tables@.map_values(|t: TableInfo| t@);
    let mut i: usize = 0;
    proof {
        assert(fv.subrange(0, fv.len() as int) =~= fv);
    }
    while i < from_tables.len()
        invariant
            i <= from_tables@.len(),
            fv == from_tables@.map_values(|t: TableInfo| t@),
            reference_for(fv, table_name@) == reference_for(fv.subrange(i as int, fv.len() as int), table_name@),
        decreases from_tables@.len() - i,
    {
        let ghost rest = fv.subrange(i as int, fv.len() as int);
        proof {
            assert(rest.drop_first() =~= fv.subrange(i + 1, fv.len() as int));
            assert(rest[0] == from_tables@[i as int]@);
        }
        if same_name_exec(from_tables[i].table_name.as_str(), table_name) {
            return match &from_tables[i].alias {
                Some(a) => a.clone(),
                None => table_name.to_owned(),
            };
        }
        i = i + 1;
    }
    table_name.to_owned()
}

/// The condition with its existing side renamed to the name by which the
/// statement refers to that table.
pub fn adjust_join_condition_for_existing_alias(
    condition: &JoinCondition,
    existing_tables: &Vec<TableInfo>,
) -> (r: JoinCondition)
    ensures
        r.left_table@ == reference_for(
            existing_tables@.map_values(|t: TableInfo| t@),
            condition.left_table@,
        ),
        r.left_column@ == condition.left_column@,
        r.right_table@ == condition.right_table@,
        r.right_column@ == condition.right_column@,
{
    JoinCondition {
        left_table: find_table_reference_name(existing_tables, condition.left_table.as_str()),
        left_column: condition.left_column.clone(),
        right_table: condition.right_table.clone(),
        right_column: condition.right_column.clone(),
    }
}

} // verus!
