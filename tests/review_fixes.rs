use safeql::cache::{get_cached_result, hash_string, store_cached_result, SharedCache};
use safeql::catalog::{adjust_join_condition_for_existing_alias, JoinCondition, SimilarTable};
use safeql::generate::{make_candidates, table_refinements, value_refinement, ValueMatch};
use safeql::locate::{extract_argument_operands_from_function_call, operands_in_statement, where_operands};
use safeql::mutate::{apply_edit, rename_table, ExprEdit, OperandPosition};
use safeql::similarity::{compatible_columns, relation_name, TypedColumn};
use safeql::tree::{serialize, ColumnRef, Expr, Select, TableInfo};

fn col(fields: &[&str]) -> Expr {
    Expr::Column(ColumnRef { fields: fields.iter().map(|f| f.to_string()).collect(), location: -1 })
}

fn star(from: Vec<TableInfo>, w: Option<Expr>) -> Select {
    Select { targets: vec![Expr::Star], from, where_clause: w }
}

#[test]
fn schema_is_stripped_from_candidates() {
    let t = star(vec![TableInfo::new("customer".to_string(), None)], None);
    let sims = vec![
        SimilarTable { table: "public.customers".to_string(), distance: 100000 },
        SimilarTable { table: "public.customer".to_string(), distance: 200000 },
    ];
    let p = table_refinements(&t.from, "customer", &sims, 1000);
    assert_eq!(p.len(), 1);
    let c = make_candidates(&t, 0, &p);
    assert_eq!(serialize(&c[0].tree), "SELECT * FROM customers");
    assert_eq!(relation_name("a.b.c"), "c");
    assert_eq!(relation_name("plain"), "plain");
}

#[test]
fn alias_missing_adds_table_under_alias() {
    let t = star(vec![TableInfo::new("orders".to_string(), Some("p".to_string()))], None);
    let sims = vec![SimilarTable { table: "public.payments".to_string(), distance: 100000 }];
    let p = table_refinements(&t.from, "p", &sims, 1000);
    let c = make_candidates(&t, 0, &p);
    assert_eq!(serialize(&c[0].tree), "SELECT * FROM orders p, payments p");
}

#[test]
fn rename_requalifies_bare_references() {
    let t = Select {
        targets: vec![col(&["customer", "id"])],
        from: vec![TableInfo::new("customer".to_string(), None)],
        where_clause: None,
    };
    assert_eq!(serialize(&rename_table(&t, "customer", "customers")), "SELECT customers.id FROM customers");
    let a = Select {
        targets: vec![col(&["c", "id"])],
        from: vec![TableInfo::new("customer".to_string(), Some("c".to_string()))],
        where_clause: None,
    };
    assert_eq!(serialize(&rename_table(&a, "customer", "customers")), "SELECT c.id FROM customers c");
}

#[test]
fn cache_read_returns_latest_write() {
    let mut c = SharedCache::new(8, true);
    assert_eq!(store_cached_result(&mut c, "k", "t", "a"), Ok(()));
    assert_eq!(store_cached_result(&mut c, "k", "t", "b"), Ok(()));
    assert_eq!(get_cached_result(&c, "k"), Some("b".to_string()));
    c.set(hash_string("k"), hash_string("t"), "c", 5).unwrap();
    assert_eq!(get_cached_result(&c, "k"), Some("c".to_string()));
}

#[test]
fn argument_replacement_keeps_alias() {
    let t = Select {
        targets: vec![Expr::Call("upper".to_string(), vec![col(&["c", "frst_name"]), col(&["x"])], 7)],
        from: vec![TableInfo::new("customers".to_string(), Some("c".to_string()))],
        where_clause: None,
    };
    let d0 = ExprEdit::ReplaceArgument { location: 7, index: 0, table: "customers".to_string(), column: "first_name".to_string() };
    assert_eq!(serialize(&apply_edit(&t, &d0)), "SELECT upper(c.first_name, x) FROM customers c");
    let d1 = ExprEdit::ReplaceArgument { location: 7, index: 1, table: "customers".to_string(), column: "y".to_string() };
    assert_eq!(serialize(&apply_edit(&t, &d1)), "SELECT upper(c.frst_name, customers.y) FROM customers c");
    let args = extract_argument_operands_from_function_call(&t, 7);
    assert_eq!(args.len(), 2);
    assert_eq!((args[0].index, args[0].operand.table_name.as_deref(), args[0].operand.column_name.as_str()), (0, Some("c"), "frst_name"));
    assert_eq!((args[1].index, args[1].operand.table_name.as_deref()), (1, None));
    assert!(extract_argument_operands_from_function_call(&t, 8).is_empty());
}

#[test]
fn type_pruned_columns() {
    let rows = vec![
        TypedColumn { column: "a".to_string(), table: "t".to_string(), column_type: "text".to_string(), distance: 1 },
        TypedColumn { column: "b".to_string(), table: "t".to_string(), column_type: "integer".to_string(), distance: 2 },
        TypedColumn { column: "c".to_string(), table: "t".to_string(), column_type: "integer".to_string(), distance: 3 },
        TypedColumn { column: "d".to_string(), table: "t".to_string(), column_type: "integer".to_string(), distance: 4 },
    ];
    let ints = vec!["integer".to_string(), "bigint".to_string()];
    let r = compatible_columns(&rows, &ints, true, 2);
    assert_eq!(r.iter().map(|c| c.column.as_str()).collect::<Vec<_>>(), vec!["b", "c"]);
    let all = compatible_columns(&rows, &ints, false, 3);
    assert_eq!(all.iter().map(|c| c.column.as_str()).collect::<Vec<_>>(), vec!["a", "b", "c"]);
}

#[test]
fn operands_carry_their_side() {
    let w = Expr::And(
        Box::new(Expr::Op("=".to_string(), Box::new(col(&["id"])), Box::new(Expr::Text("7".to_string(), 9)), 5)),
        Box::new(Expr::Op("<".to_string(), Box::new(Expr::Number("1".to_string(), 20)), Box::new(col(&["o", "n"])), 22)),
    );
    let t = star(vec![TableInfo::new("o".to_string(), None)], Some(w));
    let all = where_operands(&t);
    assert_eq!(all.len(), 2);
    assert_eq!((all[0].position, all[0].operand.column_name.as_str()), (OperandPosition::Left, "id"));
    assert_eq!((all[1].position, all[1].operand.table_name.as_deref()), (OperandPosition::Right, Some("o")));
    let at = operands_in_statement(&t, 22);
    assert_eq!(at.len(), 1);
    assert_eq!(at[0].position, OperandPosition::Right);
}

#[test]
fn value_edit_works_per_equality() {
    let eq = |c: &str, v: &str, l: i32| {
        Expr::Op("=".to_string(), Box::new(col(&[c])), Box::new(Expr::Text(v.to_string(), l)), l - 4)
    };
    let w = Expr::And(
        Box::new(Expr::And(Box::new(eq("a", "x", 10)), Box::new(eq("b", "x", 30)))),
        Box::new(Expr::Op("<>".to_string(), Box::new(col(&["c"])), Box::new(Expr::Text("x".to_string(), 50)), 46)),
    );
    let t = Select {
        targets: vec![Expr::Call("f".to_string(), vec![Expr::Text("x".to_string(), 70)], 68)],
        from: vec![TableInfo::new("t".to_string(), None)],
        where_clause: Some(w),
    };
    let eqs = safeql::locate::find_all_equality_expressions(&t);
    assert_eq!(eqs.iter().map(|q| q.location).collect::<Vec<_>>(), vec![10, 30]);
    let ms = vec![
        ValueMatch { literal: "x".to_string(), location: 10, value: "X1".to_string(), distance: 1000 },
        ValueMatch { literal: "x".to_string(), location: 30, value: "X2".to_string(), distance: 1000 },
    ];
    let p = value_refinement(&ms, 1000).unwrap();
    let c = make_candidates(&t, 0, &vec![p]);
    assert_eq!(
        serialize(&c[0].tree),
        "SELECT f('x') FROM t WHERE (((a = 'X1') AND (b = 'X2')) AND (c <> 'x'))"
    );
}

#[test]
fn join_keeps_condition_table_without_alias() {
    let from = vec![TableInfo::new("Customers".to_string(), None), TableInfo::new("orders".to_string(), Some("o".to_string()))];
    let c = JoinCondition {
        left_table: "customers".to_string(),
        left_column: "id".to_string(),
        right_table: "payments".to_string(),
        right_column: "cid".to_string(),
    };
    assert_eq!(adjust_join_condition_for_existing_alias(&c, &from).left_table, "customers");
    let c2 = JoinCondition { left_table: "ORDERS".to_string(), ..c };
    assert_eq!(adjust_join_condition_for_existing_alias(&c2, &from).left_table, "o");
    let t = star(from, None);
    let j = safeql::mutate::add_join(&t, "payments", &c2);
    assert_eq!(serialize(&j), "SELECT * FROM Customers, orders o, payments WHERE (o.id = payments.cid)");
}

#[test]
fn large_weights_accepted() {
    assert_eq!(safeql::generate::edit_cost(2000000, u64::MAX), 3689348814741910323);
    assert_eq!(safeql::generate::edit_cost(1000000, 5000000), 500000);
    let ms = vec![ValueMatch { literal: "x".to_string(), location: 1, value: "y".to_string(), distance: 2000000 }];
    assert_eq!(value_refinement(&ms, u64::MAX).unwrap().cost, 3689348814741910323);
}

#[test]
fn where_operator_sites() {
    let w = Expr::And(
        Box::new(Expr::Op("=".to_string(), Box::new(col(&["id"])), Box::new(Expr::Text("7".to_string(), 9)), 5)),
        Box::new(Expr::Not(Box::new(Expr::Op("<".to_string(), Box::new(col(&["n"])), Box::new(Expr::Number("1".to_string(), 20)), 18)))),
    );
    let t = star(vec![TableInfo::new("o".to_string(), None)], Some(w));
    let sites = safeql::locate::find_all_where_expressions(&t);
    assert_eq!(sites.iter().map(|s| (s.location, s.operator.as_str())).collect::<Vec<_>>(), vec![(5, "="), (18, "<")]);
}

#[test]
fn similarity_query_texts() {
    let t = safeql::similarity::table_similarity_sql("cust_name");
    assert!(t.contains("WITH q AS (\n            SELECT _vectors_text2vec(quote_literal('cust name')) AS v\n        )"));
    assert!(t.contains("FROM pg_vector_tables, q") && t.contains("LIMIT $1"));
    let f = safeql::similarity::type_filter_clause(&vec!["integer".to_string(), "o'k".to_string()]);
    assert_eq!(f, "AND f.fieldtype = ANY(ARRAY['integer','o''k'])");
    assert_eq!(safeql::similarity::type_filter_clause(&vec![]), "");
    let c = safeql::similarity::column_similarity_sql("id", true, &vec!["integer".to_string()]);
    assert!(c.contains("AND tablename = $1") && c.contains("ANY(ARRAY['integer'])") && c.ends_with("LIMIT $4\n    "));
    let a = safeql::similarity::column_similarity_sql("id", false, &vec![]);
    assert!(!a.contains("check_table") && a.ends_with("LIMIT $3\n    "));
}
