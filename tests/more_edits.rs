use safeql::catalog::{ArgumentPosition, ColumnOperand, FunctionTypecastRefinement, SimilarColumn};
use safeql::classify::extract_function_info_from_error;
use safeql::generate::{function_typecast_refinements, make_candidates, operand_column_refinements, value_refinement, ValueMatch};
use safeql::locate::{extract_table_column_from_ref, find_actual_table_name, find_all_equality_expressions, node_location_for_cursor};
use safeql::mutate::{apply_edit, ExprEdit};
use safeql::similarity::{create_combined_vector_query, escape_sql_literal, group_join_rows, prepare_search_terms, split_schema_rel, JoinRow};
use safeql::tree::{serialize, ColumnRef, Expr, Select, TableInfo};

fn col(fields: &[&str]) -> Expr {
    Expr::Column(ColumnRef { fields: fields.iter().map(|f| f.to_string()).collect(), location: -1 })
}

fn call_tree() -> Select {
    Select {
        targets: vec![Expr::Call("extract".to_string(), vec![Expr::Text("%Y".to_string(), 15), col(&["ts"])], 7)],
        from: vec![TableInfo::new("events".to_string(), None)],
        where_clause: Some(Expr::And(
            Box::new(Expr::Op("=".to_string(), Box::new(col(&["e", "kind"])), Box::new(Expr::Text("a".to_string(), 40)), 38)),
            Box::new(Expr::Op("=".to_string(), Box::new(Expr::Text("b".to_string(), 50)), Box::new(col(&["owner"])), 52)),
        )),
    }
}

#[test]
fn argument_cast_wraps_once() {
    let t = call_tree();
    let d = ExprEdit::CastArgument { location: 7, index: 1, target_type: "timestamp".to_string() };
    let once = apply_edit(&t, &d);
    assert!(serialize(&once).starts_with("SELECT extract('%Y', CAST(ts AS timestamp)) FROM events"));
    assert_eq!(serialize(&apply_edit(&once, &d)), serialize(&once));
    let elsewhere = ExprEdit::CastArgument { location: 8, index: 1, target_type: "timestamp".to_string() };
    assert_eq!(serialize(&apply_edit(&t, &elsewhere)), serialize(&t));
}

#[test]
fn function_cast_proposals() {
    let t = call_tree();
    let casts = vec![FunctionTypecastRefinement {
        cast_position: ArgumentPosition { index: 0 },
        target_type: "text".to_string(),
        compatible_arg_types: "text, timestamp".to_string(),
    }];
    let loc = node_location_for_cursor(8).unwrap();
    assert_eq!(loc, 7);
    assert_eq!(node_location_for_cursor(0), None);
    let props = function_typecast_refinements(loc, &casts, 1000);
    assert_eq!(props[0].cost, 100);
    let c = make_candidates(&t, 7, &props);
    assert_eq!(c[0].cost, 107);
    assert!(serialize(&c[0].tree).starts_with("SELECT extract(CAST('%Y' AS text), ts)"));
}

#[test]
fn operand_replacement() {
    let t = call_tree();
    let sims = vec![SimilarColumn { column: "category".to_string(), table: "kinds".to_string(), distance: 400000 }];
    let q = ColumnOperand { table_name: Some("e".to_string()), column_name: "kind".to_string() };
    let p = operand_column_refinements(&q, &sims, 1000);
    assert_eq!(p[0].cost, 40);
    let c = make_candidates(&t, 0, &p);
    assert!(serialize(&c[0].tree).contains("(kinds.category = 'a')"));
    let bare = ColumnOperand { table_name: None, column_name: "owner".to_string() };
    let c2 = make_candidates(&t, 0, &operand_column_refinements(&bare, &sims, 1000));
    assert!(serialize(&c2[0].tree).contains("('b' = category)"));
}

#[test]
fn equalities_and_value_cost() {
    let t = call_tree();
    let eqs = find_all_equality_expressions(&t);
    assert_eq!(eqs.len(), 2);
    assert_eq!((eqs[0].fields.clone(), eqs[0].literal.as_str()), (vec!["e".to_string(), "kind".to_string()], "a"));
    assert_eq!((eqs[1].fields.clone(), eqs[1].literal.as_str()), (vec!["owner".to_string()], "b"));
    let ms = vec![
        ValueMatch { literal: "a".to_string(), location: 40, value: "A".to_string(), distance: 125000 },
        ValueMatch { literal: "b".to_string(), location: 50, value: "B".to_string(), distance: 250000 },
    ];
    let p = value_refinement(&ms, 1000).unwrap();
    assert_eq!(p.cost, 38);
    let c = make_candidates(&t, 0, &vec![p]);
    let s = serialize(&c[0].tree);
    assert!(s.contains("(e.kind = 'A')") && s.contains("('B' = owner)"));
    assert!(value_refinement(&vec![], 1000).is_none());
}

#[test]
fn similarity_query_text() {
    assert_eq!(prepare_search_terms("first__name_"), vec!["first".to_string(), "name".to_string()]);
    assert!(prepare_search_terms("___").is_empty());
    assert_eq!(escape_sql_literal("o'neil's"), "o''neil''s");
    assert_eq!(escape_sql_literal(""), "");
    assert_eq!(
        create_combined_vector_query(&vec!["o'x".to_string(), "name".to_string()]),
        "SELECT _vectors_text2vec(quote_literal('o''x name')) AS v"
    );
    assert_eq!(split_schema_rel("public.customers"), Some((Some("public".to_string()), "customers".to_string())));
    assert_eq!(split_schema_rel("a.b.c"), Some((Some("a.b".to_string()), "c".to_string())));
    assert_eq!(split_schema_rel("customers"), Some((None, "customers".to_string())));
}

#[test]
fn function_info_defaults() {
    let f = extract_function_info_from_error("function pg_catalog.extract(unknown, bigint) does not exist");
    assert_eq!(f.function_name, "extract");
    assert_eq!(f.arg_types, vec!["unknown".to_string(), "bigint".to_string()]);
    let g = extract_function_info_from_error("no such thing");
    assert_eq!(g.function_name, "unknown");
    assert!(g.arg_types.is_empty());
}


fn row(j: &str, e: &str, fk: &str, pk: &str, d: u64) -> JoinRow {
    JoinRow { join_table: j.to_string(), existing_table: e.to_string(), fk_column: fk.to_string(), pk_column: pk.to_string(), distance: d }
}

#[test]
fn joinable_rows_grouped() {
    let rows = vec![
        row("orders", "customers", "customer_id", "id", 100),
        row("payments", "customers", "payer_id", "id", 200),
        row("orders", "customers", "billing_id", "id", 300),
    ];
    let g = group_join_rows(&rows, 10);
    assert_eq!(g.len(), 2);
    assert_eq!((g[0].table.as_str(), g[0].distance, g[0].conditions.len()), ("orders", 100, 2));
    assert_eq!(g[0].conditions[1].right_column, "billing_id");
    assert_eq!(g[0].conditions[1].left_table, "customers");
    assert_eq!(g[0].conditions[1].left_column, "id");
    assert_eq!((g[1].table.as_str(), g[1].distance), ("payments", 200));
    assert_eq!(group_join_rows(&rows, 1).len(), 1);
    assert!(group_join_rows(&vec![], 3).is_empty());
}

#[test]
fn column_reference_tables() {
    let from = vec![TableInfo::new("customers".to_string(), Some("c".to_string())), TableInfo::new("orders".to_string(), None)];
    assert_eq!(find_actual_table_name(&from, "c"), Some("customers".to_string()));
    assert_eq!(find_actual_table_name(&from, "orders"), Some("orders".to_string()));
    assert_eq!(find_actual_table_name(&from, "x"), None);
    let f = |v: &[&str]| v.iter().map(|s| s.to_string()).collect::<Vec<String>>();
    assert_eq!(extract_table_column_from_ref(&from, &f(&["c", "name"])), Some(("customers".to_string(), "name".to_string())));
    assert_eq!(extract_table_column_from_ref(&from, &f(&["x", "name"])), Some(("x".to_string(), "name".to_string())));
    assert_eq!(extract_table_column_from_ref(&from, &f(&["name"])), Some(("customers".to_string(), "name".to_string())));
    assert_eq!(extract_table_column_from_ref(&vec![], &f(&["name"])), None);
}

#[test]
fn identifier_quoting() {
    assert_eq!(safeql::similarity::quote_ident("my\"table"), "\"my\"\"table\"");
    assert_eq!(safeql::similarity::quote_ident("plain"), "\"plain\"");
}

#[test]
fn operands_at_location() {
    let t = call_tree();
    let ops = safeql::locate::operands_in_statement(&t, 38);
    assert_eq!(ops.len(), 1);
    assert_eq!((ops[0].operand.table_name.as_deref(), ops[0].operand.column_name.as_str()), (Some("e"), "kind"));
    let ops2 = safeql::locate::operands_in_statement(&t, 52);
    assert_eq!((ops2[0].operand.table_name.as_deref(), ops2[0].operand.column_name.as_str()), (None, "owner"));
    assert!(safeql::locate::operands_in_statement(&t, 1).is_empty());
    let from = vec![TableInfo::new("events".to_string(), Some("e".to_string())), TableInfo::new("kinds".to_string(), None)];
    let sims = vec![
        SimilarColumn { column: "x".to_string(), table: "events".to_string(), distance: 1 },
        SimilarColumn { column: "y".to_string(), table: "kinds".to_string(), distance: 2 },
        SimilarColumn { column: "z".to_string(), table: "other".to_string(), distance: 3 },
    ];
    let kept = safeql::generate::columns_of_other_tables(&from, "EVENTS", &sims);
    assert_eq!(kept.len(), 1);
    assert_eq!(kept[0].column, "y");
}
