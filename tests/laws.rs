use safeql::catalog::{find_table_reference_name, JoinCondition, adjust_join_condition_for_existing_alias};
use safeql::classify::{
    classify_analyzer_error, extract_ambiguous_column, extract_missing_column, extract_missing_function,
    extract_missing_relation, extract_operator_info_from_error, is_operator_type_error, ErrorCode,
    RepairCase,
};
use safeql::generate::{apply_descriptor, make_candidates, Edit, Proposal};
use safeql::mutate::{add_join, apply_edit, rename_table, swap_table_for_column, ExprEdit, OperandPosition};
use safeql::route::{families_for_case, Family, Tunables};
use safeql::search::{Search, Step};
use safeql::tree::{deep_copy, serialize, ColumnRef, Expr, Select, TableInfo};

fn col(fields: &[&str]) -> Expr {
    Expr::Column(ColumnRef { fields: fields.iter().map(|f| f.to_string()).collect(), location: -1 })
}

fn sample() -> Select {
    Select {
        targets: vec![
            col(&["c", "name"]),
            Expr::Call("lower".to_string(), vec![col(&["email"]), Expr::Number("1".to_string(), 20)], 14),
        ],
        from: vec![TableInfo::new("customer".to_string(), Some("c".to_string())), TableInfo::new("orders".to_string(), None)],
        where_clause: Some(Expr::And(
            Box::new(Expr::Op("=".to_string(), Box::new(col(&["id"])), Box::new(Expr::Text("7".to_string(), 50)), 45)),
            Box::new(Expr::Not(Box::new(Expr::Op(">".to_string(), Box::new(col(&["orders", "total"])), Box::new(Expr::Number("3".to_string(), 70)), 68)))),
        )),
    }
}

#[test]
fn serialization_text() {
    assert_eq!(
        serialize(&sample()),
        "SELECT c.name, lower(email, 1) FROM customer c, orders WHERE ((id = '7') AND (NOT (orders.total > 3)))"
    );
}

#[test]
fn deep_copy_keeps_text() {
    let t = sample();
    let c = deep_copy(&t);
    assert_eq!(serialize(&c), serialize(&t));
}

#[test]
fn copies_are_independent() {
    let t = sample();
    let before = serialize(&t);
    let mut c = deep_copy(&t);
    c.from[0].table_name = "changed".to_string();
    c.targets.clear();
    assert_eq!(serialize(&t), before);
    assert_ne!(serialize(&c), before);
}

#[test]
fn edits_are_idempotent() {
    let t = sample();
    let edits = vec![
        ExprEdit::RenameColumn { qualifier: Some("c".to_string()), old: "name".to_string(), new: "full_name".to_string() },
        ExprEdit::Qualify { column: "id".to_string(), table: "c".to_string() },
        ExprEdit::Requalify { old: "orders".to_string(), new: "sales".to_string() },
        ExprEdit::ReplaceText { old: "7".to_string(), new: "8".to_string() },
        ExprEdit::RenameFunction { location: 14, old: "lower".to_string(), new: "upper".to_string() },
        ExprEdit::CastOperand { location: 45, side: OperandPosition::Right, target_type: "integer".to_string() },
        ExprEdit::ReplaceArgument { location: 14, index: 1, table: "c".to_string(), column: "age".to_string() },
        ExprEdit::Retarget {
            old_table: "orders".to_string(),
            old_column: "total".to_string(),
            new_table: "o2".to_string(),
            new_column: "sum".to_string(),
        },
    ];
    for d in &edits {
        let once = apply_edit(&t, d);
        let twice = apply_edit(&once, d);
        assert_eq!(serialize(&once), serialize(&twice));
        assert_ne!(serialize(&once), serialize(&t));
    }
    let r1 = rename_table(&t, "c", "customers");
    assert_eq!(serialize(&rename_table(&r1, "c", "customers")), serialize(&r1));
}

#[test]
fn each_edit_result() {
    let t = sample();
    let s = |d: ExprEdit| serialize(&apply_edit(&t, &d));
    assert_eq!(
        s(ExprEdit::CastOperand { location: 45, side: OperandPosition::Left, target_type: "text".to_string() }),
        "SELECT c.name, lower(email, 1) FROM customer c, orders WHERE ((CAST(id AS text) = '7') AND (NOT (orders.total > 3)))"
    );
    assert_eq!(
        s(ExprEdit::CastOperand { location: 99, side: OperandPosition::Left, target_type: "text".to_string() }),
        serialize(&t)
    );
    assert_eq!(
        s(ExprEdit::ReplaceArgument { location: 14, index: 0, table: "c".to_string(), column: "mail".to_string() }),
        "SELECT c.name, lower(c.mail, 1) FROM customer c, orders WHERE ((id = '7') AND (NOT (orders.total > 3)))"
    );
    assert_eq!(
        s(ExprEdit::ReplaceArgument { location: 14, index: 2, table: "c".to_string(), column: "mail".to_string() }),
        serialize(&t)
    );
    assert_eq!(
        s(ExprEdit::RenameFunction { location: 14, old: "lower".to_string(), new: "upper".to_string() }),
        "SELECT c.name, upper(email, 1) FROM customer c, orders WHERE ((id = '7') AND (NOT (orders.total > 3)))"
    );
    assert_eq!(
        s(ExprEdit::Qualify { column: "email".to_string(), table: "c".to_string() }),
        "SELECT c.name, lower(c.email, 1) FROM customer c, orders WHERE ((id = '7') AND (NOT (orders.total > 3)))"
    );
}

#[test]
fn cast_of_cast_is_no_op() {
    let t = Select {
        targets: vec![Expr::Star],
        from: vec![TableInfo::new("t".to_string(), None)],
        where_clause: Some(Expr::Op(
            "=".to_string(),
            Box::new(Expr::Cast(Box::new(col(&["id"])), "text".to_string())),
            Box::new(Expr::Text("x".to_string(), 9)),
            5,
        )),
    };
    let d = ExprEdit::CastOperand { location: 5, side: OperandPosition::Left, target_type: "integer".to_string() };
    assert_eq!(serialize(&apply_edit(&t, &d)), serialize(&t));
}

#[test]
fn table_rename_keeps_alias() {
    let t = sample();
    let r = rename_table(&t, "customer", "customers");
    assert_eq!(r.from[0].alias, Some("c".to_string()));
    assert_eq!(r.from[0].table_name, "customers");
    assert_eq!(r.from[1].table_name, "orders");
    let by_alias = rename_table(&t, "c", "clients");
    assert_eq!(by_alias.from[0].alias, Some("c".to_string()));
    assert_eq!(by_alias.from[0].table_name, "clients");
}

#[test]
fn swap_table_requalifies_bare_references() {
    let t = sample();
    let r = swap_table_for_column(&t, "orders", "sales");
    assert_eq!(
        serialize(&r),
        "SELECT c.name, lower(email, 1) FROM customer c, sales WHERE ((id = '7') AND (NOT (sales.total > 3)))"
    );
    let a = swap_table_for_column(&t, "c", "clients");
    assert_eq!(
        serialize(&a),
        "SELECT c.name, lower(email, 1) FROM clients c, orders WHERE ((id = '7') AND (NOT (orders.total > 3)))"
    );
}

#[test]
fn join_uses_existing_alias() {
    let t = sample();
    let cond = JoinCondition {
        left_table: "customer".to_string(),
        left_column: "id".to_string(),
        right_table: "payments".to_string(),
        right_column: "customer_id".to_string(),
    };
    assert_eq!(find_table_reference_name(&t.from, "customer"), "c");
    assert_eq!(find_table_reference_name(&t.from, "missing"), "missing");
    assert_eq!(adjust_join_condition_for_existing_alias(&cond, &t.from).left_table, "c");
    let j = add_join(&t, "payments", &cond);
    assert!(serialize(&j).ends_with("(c.id = payments.customer_id))"));
    assert_eq!(j.from.len(), 3);
    assert_eq!(j.from[2].alias, None);
    let via = apply_descriptor(&t, &Edit::AddJoin { table: "payments".to_string(), condition: cond });
    assert_eq!(serialize(&via), serialize(&j));
}

#[test]
fn classifier_messages() {
    assert_eq!(extract_missing_relation("relation \"hello\" does not exist"), Some("hello".to_string()));
    assert_eq!(extract_missing_relation("missing FROM-clause entry for table \"p\""), Some("p".to_string()));
    assert_eq!(extract_missing_relation("syntax error"), None);
    assert_eq!(
        extract_missing_column("column \"nm\" of relation \"users\" does not exist"),
        Some((Some("users".to_string()), "nm".to_string()))
    );
    assert_eq!(extract_missing_column("column u.nm does not exist"), Some((Some("u".to_string()), "nm".to_string())));
    assert_eq!(extract_missing_column("column \"nm\" does not exist"), Some((None, "nm".to_string())));
    assert_eq!(
        extract_missing_column("column patient.County Name does not exist"),
        Some((Some("patient".to_string()), "County Name".to_string()))
    );
    assert_eq!(extract_missing_column("column County Name does not exist"), Some((None, "County Name".to_string())));
    assert_eq!(
        extract_missing_function("function pg_catalog.extract(unknown, bigint) does not exist"),
        Some(("extract".to_string(), vec!["unknown".to_string(), "bigint".to_string()]))
    );
    assert_eq!(extract_missing_function("function now() does not exist"), Some(("now".to_string(), vec![])));
    assert_eq!(extract_ambiguous_column("column reference \"id\" is ambiguous"), Some("id".to_string()));
    assert_eq!(extract_ambiguous_column("column \"id\" is ambiguous"), Some("id".to_string()));
    assert_eq!(extract_ambiguous_column("ambiguous column name: id"), Some("id".to_string()));
    let op = extract_operator_info_from_error("operator does not exist: bigint = text");
    assert_eq!((op.operator_name.as_str(), op.left_type.as_deref(), op.right_type.as_deref()), ("=", Some("bigint"), Some("text")));
    let eq = extract_operator_info_from_error("could not identify an equality operator for type json");
    assert_eq!((eq.operator_name.as_str(), eq.left_type.as_deref(), eq.right_type.as_deref()), ("=", Some("json"), Some("json")));
    let none = extract_operator_info_from_error("other");
    assert_eq!((none.operator_name.as_str(), none.left_type, none.right_type), ("=", None, None));
    assert!(is_operator_type_error("operator is not unique: unknown + unknown"));
    assert!(!is_operator_type_error("relation \"x\" does not exist"));
}

#[test]
fn classifier_routes_codes() {
    match classify_analyzer_error(ErrorCode::UndefinedFunction, "operator does not exist: integer = text", Some(34)) {
        RepairCase::OperatorMismatch(info, 34) => assert_eq!(info.left_type.as_deref(), Some("integer")),
        other => panic!("unexpected {:?}", other),
    }
    assert!(matches!(
        classify_analyzer_error(ErrorCode::UndefinedFunction, "operator does not exist: integer = text", None),
        RepairCase::NoRepair
    ));
    assert!(matches!(
        classify_analyzer_error(ErrorCode::UndefinedFunction, "function foo(integer) does not exist", Some(8)),
        RepairCase::UnknownFunction(_, _, 8)
    ));
    assert!(matches!(classify_analyzer_error(ErrorCode::Other, "relation \"x\" does not exist", None), RepairCase::NoRepair));
    assert!(matches!(
        classify_analyzer_error(ErrorCode::UndefinedTable, "relation \"x\" does not exist", None),
        RepairCase::UnknownRelation(_)
    ));
}

#[test]
fn routing_follows_switches() {
    let mut tun = Tunables::defaults();
    let case = RepairCase::UnknownColumn(Some("c".to_string()), "x".to_string());
    assert_eq!(
        families_for_case(&case, true, &tun.switches),
        vec![Family::ColumnRename, Family::TableForColumn, Family::QualifierRetarget, Family::Join]
    );
    let bare = RepairCase::UnknownColumn(None, "x".to_string());
    assert_eq!(
        families_for_case(&bare, true, &tun.switches),
        vec![Family::ColumnRename, Family::TableRenameAll, Family::Join]
    );
    let f = RepairCase::UnknownFunction("f".to_string(), vec![], 3);
    assert_eq!(families_for_case(&f, false, &tun.switches), vec![Family::FunctionName]);
    tun.switches.refinement = false;
    assert!(families_for_case(&case, true, &tun.switches).is_empty());
}

fn star_from(name: &str) -> Select {
    Select { targets: vec![Expr::Star], from: vec![TableInfo::new(name.to_string(), None)], where_clause: None }
}

#[test]
fn search_orders_by_cost_then_insertion() {
    let mut s = Search::new(&star_from("t0"), 5, 100);
    let root = match s.pop() {
        Step::Analyze(e) => e,
        _ => panic!("root expected"),
    };
    assert_eq!((root.cost, root.hop), (0, 0));
    let props = vec![
        Proposal { edit: Edit::RenameTable { target: "t0".to_string(), replacement: "b".to_string() }, cost: 5 },
        Proposal { edit: Edit::RenameTable { target: "t0".to_string(), replacement: "a".to_string() }, cost: 3 },
        Proposal { edit: Edit::RenameTable { target: "t0".to_string(), replacement: "c".to_string() }, cost: 3 },
        Proposal { edit: Edit::RenameTable { target: "t0".to_string(), replacement: "a".to_string() }, cost: 1 },
    ];
    let offered: Vec<bool> = make_candidates(&root.tree, root.cost, &props)
        .into_iter()
        .map(|c| s.offer(c, root.hop))
        .collect();
    assert_eq!(offered, vec![true, true, true, false]);
    let mut order = vec![];
    while let Step::Analyze(e) = s.pop() {
        assert_eq!(e.hop, 1);
        order.push((e.cost, e.tree.from[0].table_name.clone()));
    }
    assert_eq!(order, vec![(3, "a".to_string()), (3, "c".to_string()), (5, "b".to_string())]);
    assert_eq!(s.analyzed(), 4);
}

#[test]
fn search_respects_hop_bound() {
    let mut s = Search::new(&star_from("t0"), 1, 100);
    let root = match s.pop() {
        Step::Analyze(e) => e,
        _ => panic!("root expected"),
    };
    let p = vec![Proposal { edit: Edit::RenameTable { target: "t0".to_string(), replacement: "t1".to_string() }, cost: 1 }];
    let c1 = make_candidates(&root.tree, 0, &p).pop().unwrap();
    assert!(s.offer(c1, 0));
    let e1 = match s.pop() {
        Step::Analyze(e) => e,
        _ => panic!("child expected"),
    };
    assert_eq!(e1.hop, 1);
    let p2 = vec![Proposal { edit: Edit::RenameTable { target: "t1".to_string(), replacement: "t2".to_string() }, cost: 1 }];
    let c2 = make_candidates(&e1.tree, e1.cost, &p2).pop().unwrap();
    assert!(!s.offer(c2, e1.hop));
    assert!(matches!(s.pop(), Step::Exhausted));
}

#[test]
fn search_respects_budget() {
    let mut s = Search::new(&star_from("t0"), 10, 2);
    let mut analyzed = 0;
    let mut n: u64 = 0;
    loop {
        match s.pop() {
            Step::Analyze(e) => {
                analyzed += 1;
                for k in 0..3u64 {
                    n += 1;
                    let p = vec![Proposal {
                        edit: Edit::RenameTable { target: e.tree.from[0].table_name.clone(), replacement: format!("t{}", n * 10 + k) },
                        cost: 1,
                    }];
                    let c = make_candidates(&e.tree, e.cost, &p).pop().unwrap();
                    s.offer(c, e.hop);
                }
            }
            Step::Skip => {}
            Step::Exhausted => break,
        }
    }
    assert_eq!(analyzed, 2);
    assert_eq!(s.analyzed(), 2);
    assert_eq!(serialize(s.original()), "SELECT * FROM t0");
}

#[test]
fn names_compare_up_to_case() {
    let t = sample();
    let r = rename_table(&t, "CUSTOMER", "customers");
    assert_eq!(r.from[0].table_name, "customers");
    let q = apply_edit(&t, &ExprEdit::RenameColumn { qualifier: Some("C".to_string()), old: "Name".to_string(), new: "full_name".to_string() });
    assert!(serialize(&q).starts_with("SELECT c.full_name,"));
    assert_eq!(find_table_reference_name(&t.from, "Customer"), "c");
    let lit = apply_edit(&t, &ExprEdit::ReplaceText { old: "7".to_string(), new: "8".to_string() });
    assert!(serialize(&lit).contains("'8'"));
    let exact = apply_edit(&t, &ExprEdit::RenameFunction { location: 14, old: "LOWER".to_string(), new: "upper".to_string() });
    assert_eq!(serialize(&exact), serialize(&t));
}
