use safeql::cache::{
    generate_cache_key, get_cached_result, hash_string, store_cached_result, CacheError, SharedCache,
    MAX_DATA_SIZE,
};
use safeql::catalog::{JoinCondition, JoinableTable, SimilarColumn, SimilarTable};
use safeql::classify::{classify_analyzer_error, classify_executor_error, ErrorCode, RepairCase};
use safeql::generate::{
    ambiguity_refinements, column_refinements, edit_cost, format_refinement, join_refinements,
    make_candidates, strftime_to_datepart, table_refinements, typecast_refinements,
    value_refinement, Proposal, ValueMatch, Weights,
};
use safeql::locate::{find_all_equality_expressions, node_location_for_cursor};
use safeql::mutate::OperandPosition;
use safeql::route::{families_for_case, families_for_execution, Execution, Family, Tunables};
use safeql::search::{Search, Step};
use safeql::tree::{serialize, ColumnRef, Expr, Select, TableInfo};
use safeql::catalog::TypecastRefinement;

fn col(fields: &[&str]) -> Expr {
    Expr::Column(ColumnRef { fields: fields.iter().map(|f| f.to_string()).collect(), location: -1 })
}

fn table(name: &str, alias: Option<&str>) -> TableInfo {
    TableInfo::new(name.to_string(), alias.map(|a| a.to_string()))
}

fn text(s: &str) -> Expr {
    Expr::Text(s.to_string(), -1)
}

type AnalyzerError = (ErrorCode, String, Option<i32>);

/// Runs the search to its end with the given oracles; returns the text of
/// the repaired statement, or of the original when none was found.
fn repair(
    tree: &Select,
    analyze: &dyn Fn(&str) -> Result<(), AnalyzerError>,
    execute: &dyn Fn(&str) -> Execution,
    propose: &dyn Fn(Family, &RepairCase, &Select) -> Vec<Proposal>,
) -> String {
    let tun = Tunables::defaults();
    let mut search = Search::new(tree, tun.max_hop, tun.max_num);
    loop {
        match search.pop() {
            Step::Exhausted => return serialize(search.original()),
            Step::Skip => continue,
            Step::Analyze(entry) => {
                let sql = serialize(&entry.tree);
                let (case, families) = match analyze(&sql) {
                    Ok(()) => match execute(&sql) {
                        Execution::Rows => return sql,
                        x => (RepairCase::NoRepair, families_for_execution(x, &tun.switches)),
                    },
                    Err((code, msg, cursor)) => {
                        let case = classify_analyzer_error(code, &msg, cursor);
                        let fams = families_for_case(&case, true, &tun.switches);
                        (case, fams)
                    }
                };
                for f in families {
                    let props = propose(f, &case, &entry.tree);
                    for cand in make_candidates(&entry.tree, entry.cost, &props) {
                        search.offer(cand, entry.hop);
                    }
                }
            }
        }
    }
}

#[test]
fn scenario_table_typo() {
    let t = Select { targets: vec![Expr::Star], from: vec![table("customer", None)], where_clause: None };
    let analyze = |sql: &str| {
        if sql == "SELECT * FROM customers" {
            Ok(())
        } else {
            Err((ErrorCode::UndefinedTable, "relation \"customer\" does not exist".to_string(), Some(15)))
        }
    };
    let execute = |_: &str| Execution::Rows;
    let propose = |f: Family, case: &RepairCase, t: &Select| match (f, case) {
        (Family::TableRename, RepairCase::UnknownRelation(r)) => {
            let sims = vec![SimilarTable { table: "customers".to_string(), distance: 100000 }];
            table_refinements(&t.from, r, &sims, Weights::shipped().table)
        }
        _ => vec![],
    };
    assert_eq!(repair(&t, &analyze, &execute, &propose), "SELECT * FROM customers");
}

#[test]
fn scenario_column_typo_with_qualifier() {
    let t = Select {
        targets: vec![col(&["c", "frst_name"])],
        from: vec![table("customers", Some("c"))],
        where_clause: None,
    };
    let analyze = |sql: &str| {
        if sql == "SELECT c.first_name FROM customers c" {
            Ok(())
        } else {
            Err((ErrorCode::UndefinedColumn, "column c.frst_name does not exist".to_string(), Some(8)))
        }
    };
    let execute = |_: &str| Execution::Rows;
    let propose = |f: Family, case: &RepairCase, _: &Select| match (f, case) {
        (Family::ColumnRename, RepairCase::UnknownColumn(q, c)) => {
            let sims = vec![SimilarColumn {
                column: "first_name".to_string(),
                table: "customers".to_string(),
                distance: 150000,
            }];
            column_refinements(q, c, &sims, Weights::shipped().column)
        }
        _ => vec![],
    };
    assert_eq!(repair(&t, &analyze, &execute, &propose), "SELECT c.first_name FROM customers c");
}

#[test]
fn scenario_unqualified_column_of_unjoined_table() {
    let t = Select { targets: vec![col(&["customer_id"])], from: vec![table("customers", None)], where_clause: None };
    let expected = "SELECT customer_id FROM customers, orders WHERE (customers.id = orders.customer_id)";
    let analyze = |sql: &str| {
        if sql == expected {
            Ok(())
        } else {
            Err((ErrorCode::UndefinedColumn, "column \"customer_id\" does not exist".to_string(), Some(8)))
        }
    };
    let execute = |_: &str| Execution::Rows;
    let propose = |f: Family, _: &RepairCase, _: &Select| match f {
        Family::Join => {
            let js = vec![JoinableTable {
                table: "orders".to_string(),
                distance: 0,
                conditions: vec![JoinCondition {
                    left_table: "customers".to_string(),
                    left_column: "id".to_string(),
                    right_table: "orders".to_string(),
                    right_column: "customer_id".to_string(),
                }],
            }];
            join_refinements(&js, Weights::shipped().join)
        }
        _ => vec![],
    };
    assert_eq!(repair(&t, &analyze, &execute, &propose), expected);
}

fn id_equals_foo() -> Select {
    Select {
        targets: vec![Expr::Star],
        from: vec![table("customers", None)],
        where_clause: Some(Expr::Op("=".to_string(), Box::new(col(&["id"])), Box::new(text("foo")), 33)),
    }
}

#[test]
fn scenario_operator_type_mismatch() {
    let t = id_equals_foo();
    let analyze = |sql: &str| {
        if sql.contains("CAST") {
            Ok(())
        } else {
            Err((ErrorCode::UndefinedFunction, "operator does not exist: integer = text".to_string(), Some(34)))
        }
    };
    let execute = |_: &str| Execution::Rows;
    let propose = |f: Family, case: &RepairCase, _: &Select| match (f, case) {
        (Family::OperandTypecast, RepairCase::OperatorMismatch(_, cursor)) => {
            let casts = vec![
                TypecastRefinement {
                    cast_position: OperandPosition::Right,
                    target_type: "integer".to_string(),
                    fixed_type: Some("integer".to_string()),
                },
                TypecastRefinement {
                    cast_position: OperandPosition::Left,
                    target_type: "text".to_string(),
                    fixed_type: Some("text".to_string()),
                },
            ];
            typecast_refinements(node_location_for_cursor(*cursor).unwrap(), &casts, Weights::shipped().typecast)
        }
        (Family::OperandColumn, _) => {
            let sims = vec![SimilarColumn { column: "email".to_string(), table: "customers".to_string(), distance: 300000 }];
            column_refinements(&None, "id", &sims, Weights::shipped().column)
        }
        _ => vec![],
    };
    assert_eq!(
        repair(&t, &analyze, &execute, &propose),
        "SELECT * FROM customers WHERE (id = CAST('foo' AS integer))"
    );
}

#[test]
fn scenario_ambiguous_column() {
    let t = Select { targets: vec![col(&["name"])], from: vec![table("a", None), table("b", None)], where_clause: None };
    let analyze = |sql: &str| {
        if sql.starts_with("SELECT a.name") || sql.starts_with("SELECT b.name") {
            Ok(())
        } else {
            Err((ErrorCode::AmbiguousColumn, "column reference \"name\" is ambiguous".to_string(), Some(8)))
        }
    };
    let execute = |_: &str| Execution::Rows;
    let propose = |f: Family, case: &RepairCase, t: &Select| match (f, case) {
        (Family::Ambiguity, RepairCase::AmbiguousColumn(c)) => {
            ambiguity_refinements(&t.from, c, &vec!["a".to_string(), "b".to_string()], Weights::shipped().ambiguity)
        }
        _ => vec![],
    };
    assert_eq!(repair(&t, &analyze, &execute, &propose), "SELECT a.name FROM a, b");
}

#[test]
fn scenario_empty_result_value_refinement() {
    let t = Select {
        targets: vec![Expr::Star],
        from: vec![table("cities", None)],
        where_clause: Some(Expr::Op("=".to_string(), Box::new(col(&["name"])), Box::new(text("seol")), 27)),
    };
    let analyze = |_: &str| Ok(());
    let execute = |sql: &str| if sql.contains("'Seoul'") { Execution::Rows } else { Execution::Empty };
    let propose = |f: Family, _: &RepairCase, t: &Select| match f {
        Family::Value => {
            let matches: Vec<ValueMatch> = find_all_equality_expressions(t)
                .into_iter()
                .filter(|q| q.literal == "seol")
                .map(|q| ValueMatch { literal: q.literal, location: q.location, value: "Seoul".to_string(), distance: 120000 })
                .collect();
            value_refinement(&matches, Weights::shipped().value).into_iter().collect()
        }
        _ => vec![],
    };
    assert_eq!(repair(&t, &analyze, &execute, &propose), "SELECT * FROM cities WHERE (name = 'Seoul')");
}

#[test]
fn no_repair_returns_original() {
    let t = Select { targets: vec![Expr::Star], from: vec![table("nowhere", None)], where_clause: None };
    let analyze = |_: &str| Err((ErrorCode::Other, "syntax error".to_string(), None));
    let execute = |_: &str| Execution::Rows;
    let propose = |_: Family, _: &RepairCase, _: &Select| vec![];
    assert_eq!(repair(&t, &analyze, &execute, &propose), "SELECT * FROM nowhere");
}

#[test]
fn cache_write_then_read() {
    let mut c = SharedCache::new(4, true);
    assert_eq!(store_cached_result(&mut c, "k1", "tables", "[1,2]"), Ok(()));
    assert_eq!(get_cached_result(&c, "k1"), Some("[1,2]".to_string()));
    assert_eq!(get_cached_result(&c, "k2"), None);
}

#[test]
fn cache_value_too_large_keeps_other_slots() {
    let mut c = SharedCache::new(4, true);
    c.set(hash_string("a"), hash_string("t"), "small", 100).unwrap();
    let big = "x".repeat(MAX_DATA_SIZE + 1);
    assert_eq!(c.set(hash_string("b"), hash_string("t"), &big, 100), Err(CacheError::ValueTooLarge));
    assert_eq!(get_cached_result(&c, "a"), Some("small".to_string()));
    assert_eq!(get_cached_result(&c, "b"), None);
    assert_eq!(c.len(), 1);
    let exact = "y".repeat(MAX_DATA_SIZE);
    assert_eq!(c.set(hash_string("c"), hash_string("t"), &exact, 100), Ok(()));
}

#[test]
fn cache_full_evicts_old_entries() {
    let mut c = SharedCache::new(2, true);
    let day = 86400;
    c.set(hash_string("old"), hash_string("t"), "1", 0).unwrap();
    c.set(hash_string("new"), hash_string("t"), "2", 7 * day).unwrap();
    assert_eq!(c.set(hash_string("third"), hash_string("t"), "3", 8 * day), Ok(()));
    assert_eq!(get_cached_result(&c, "old"), None);
    assert_eq!(get_cached_result(&c, "new"), Some("2".to_string()));
    assert_eq!(get_cached_result(&c, "third"), Some("3".to_string()));
    assert_eq!(c.set(hash_string("fourth"), hash_string("t"), "4", 8 * day), Err(CacheError::Full));
}

#[test]
fn cache_disabled_is_a_no_op() {
    let mut c = SharedCache::new(2, false);
    assert_eq!(c.set(hash_string("k"), hash_string("t"), "v", 1), Ok(()));
    assert_eq!(get_cached_result(&c, "k"), None);
    assert_eq!(c.len(), 0);
}

#[test]
fn cache_clear_by_age() {
    let mut c = SharedCache::new(4, true);
    c.set(hash_string("a"), hash_string("t"), "1", 0).unwrap();
    c.set(hash_string("b"), hash_string("t"), "2", 3 * 86400).unwrap();
    assert_eq!(c.clear(Some(2), 4 * 86400), 1);
    assert_eq!(get_cached_result(&c, "b"), Some("2".to_string()));
    assert_eq!(c.clear(None, 4 * 86400), 1);
    assert_eq!(c.len(), 0);
}

#[test]
fn cache_key_shape() {
    let k = generate_cache_key("columns", &vec!["customers", "name"]);
    assert!(k.starts_with("columns_"));
    assert_eq!(k.len(), "columns_".len() + 16);
    assert!(k["columns_".len()..].chars().all(|c| c.is_ascii_hexdigit() && !c.is_ascii_uppercase()));
    assert_eq!(k, generate_cache_key("columns", &vec!["customers", "name"]));
    assert_ne!(k, generate_cache_key("columns", &vec!["customers", "email"]));
    assert_eq!(hash_string("abc"), hash_string("abc"));
    assert_ne!(hash_string("abc"), hash_string("abd"));
}

#[test]
fn edit_cost_values() {
    assert_eq!(edit_cost(250000, 1000), 25);
    assert_eq!(edit_cost(1000000, 2000), 200);
    assert_eq!(edit_cost(1000000, 100), 10);
    assert_eq!(edit_cost(1234567, 1000), 123);
    assert_eq!(edit_cost(5000, 1000), 1);
    assert_eq!(edit_cost(4999, 1000), 0);
    assert_eq!(edit_cost(2000000, 0), 0);
}

#[test]
fn format_directives() {
    assert_eq!(strftime_to_datepart("%Y"), Some("year".to_string()));
    assert_eq!(strftime_to_datepart(" '%m' "), Some("month".to_string()));
    assert_eq!(strftime_to_datepart("\"%Z\""), Some("timezone_abbrev".to_string()));
    assert_eq!(strftime_to_datepart("%W"), Some("week".to_string()));
    assert_eq!(strftime_to_datepart("%s"), Some("epoch".to_string()));
    assert_eq!(strftime_to_datepart("%Q"), None);
    assert_eq!(strftime_to_datepart("YYYY"), None);
    let p = format_refinement("%Y", 1000).unwrap();
    assert_eq!(p.cost, 100);
    assert!(format_refinement("%Q", 1000).is_none());
}

#[test]
fn executor_format_error() {
    assert_eq!(
        classify_executor_error(ErrorCode::InvalidParameterValue, "unit \"%Y\" not recognized"),
        Some("%Y".to_string())
    );
    assert_eq!(
        classify_executor_error(ErrorCode::InvalidParameterValue, "invalid format string \"%d\""),
        Some("%d".to_string())
    );
    assert_eq!(classify_executor_error(ErrorCode::Other, "unit \"%Y\" not recognized"), None);
}

#[test]
fn monotone_candidate_costs() {
    let t = id_equals_foo();
    let sims = vec![
        SimilarTable { table: "clients".to_string(), distance: 0 },
        SimilarTable { table: "customers".to_string(), distance: 300000 },
        SimilarTable { table: "orders".to_string(), distance: 2000000 },
    ];
    let props = table_refinements(&t.from, "customers", &sims, 1000);
    assert_eq!(props.len(), 2);
    let cands = make_candidates(&t, 40, &props);
    assert_eq!(cands[0].cost, 40);
    assert_eq!(cands[1].cost, 240);
    assert!(cands.iter().all(|c| c.cost >= 40));
    let top = make_candidates(&t, u64::MAX - 1, &props);
    assert_eq!(top[1].cost, u64::MAX);
}
