use rwf::model::column::Column;
use rwf::model::filter::Comparison;
use rwf::model::filter::Filter;
use rwf::model::filter::FilterError;
use rwf::model::filter::JoinOp;
use rwf::model::filter::WhereClause;
use rwf::model::value::Value;

#[test]
fn test_filter() {
    let filter = Filter {
        clauses: vec![
            Comparison::Equal((
                Column::new("table_name", "column_a"),
                Value::String("value".into()),
            )),
            Comparison::NotEqual((Column::new("table_name", "column_b"), Value::Integer(42))),
            Comparison::Filter(Filter {
                clauses: vec![
                    Comparison::NotIn((
                        Column::new("table_x", "column_y"),
                        Value::List(vec![Value::Integer(56), Value::Integer(67)]),
                    )),
                    Comparison::Equal((
                        Column::new("table_y", "column_x"),
                        Value::String("hello".into()),
                    )),
                ],
                op: JoinOp::Or,
            }),
        ],
        op: JoinOp::And,
    };

    let sql = filter.to_sql();
    assert_eq!(
        sql,
        r#""table_name"."column_a" = 'value' AND "table_name"."column_b" <> 42 AND ("table_x"."column_y" <> ANY({56, 67}) OR "table_y"."column_x" = 'hello')"#
    );
}

#[test]
fn test_join() {
    let a = Filter {
        clauses: vec![
            Comparison::Equal((Column::new("table", "column_a"), Value::Integer(5))),
            Comparison::NotEqual((Column::new("table", "column_a"), Value::Integer(125))),
        ],
        op: JoinOp::Or,
    };

    let b = Filter {
        clauses: vec![
            Comparison::Equal((Column::new("table", "column_b"), Value::Integer(42))),
            Comparison::NotEqual((Column::new("table", "column_b"), Value::Integer(56))),
        ],
        op: JoinOp::And,
    };

    let or = a.clone().or(b.clone());
    let and = a.and(b);

    assert_eq!(
        and.to_sql(),
        r#"("table"."column_a" = 5 OR "table"."column_a" <> 125) AND ("table"."column_b" = 42 AND "table"."column_b" <> 56)"#
    );
    assert_eq!(
        or.to_sql(),
        r#"("table"."column_a" = 5 OR "table"."column_a" <> 125) OR ("table"."column_b" = 42 AND "table"."column_b" <> 56)"#
    );
}

fn two_clause_filter(op: JoinOp) -> Filter {
    Filter {
        clauses: vec![
            Comparison::Equal((Column::name("a"), Value::Integer(1))),
            Comparison::NotEqual((Column::name("b"), Value::Integer(2))),
        ],
        op,
    }
}

#[test]
fn test_empty_filter_identity() {
    let f = two_clause_filter(JoinOp::Or);
    assert_eq!(Filter::default().and(f.clone()).to_sql(), f.to_sql());
    assert_eq!(Filter::default().or(f.clone()).to_sql(), f.to_sql());
}

#[test]
fn test_concat_operator_mismatch() {
    let a = two_clause_filter(JoinOp::And);
    let b = two_clause_filter(JoinOp::Or);
    let r = a.concat(b);
    assert!(matches!(r, Err(FilterError::OperatorMismatch)));
}

#[test]
fn test_concat_flattens_merge_wraps() {
    let a = two_clause_filter(JoinOp::And);
    let b = Filter {
        clauses: vec![Comparison::Equal((Column::name("c"), Value::Integer(3)))],
        op: JoinOp::And,
    };
    let flat = a.concat(b.clone()).unwrap().to_sql();
    assert_eq!(flat, r#""a" = 1 AND "b" <> 2 AND "c" = 3"#);
    assert!(!flat.contains('('));
    let wrapped = a.and(b.clone()).to_sql();
    assert_eq!(wrapped, r#"("a" = 1 AND "b" <> 2) AND ("c" = 3)"#);
    let wrapped_or = a.or(b).to_sql();
    assert_eq!(wrapped_or, r#"("a" = 1 AND "b" <> 2) OR ("c" = 3)"#);
}

#[test]
fn test_membership_classification() {
    let mut by_list = Filter::default();
    by_list.add(
        Column::name("col"),
        Value::List(vec![Value::Integer(1), Value::Integer(2)]),
    );
    assert_eq!(by_list.to_sql(), r#""col" = ANY({1, 2})"#);

    let mut by_scalar = Filter::default();
    by_scalar.add(Column::name("col"), Value::Integer(1));
    assert_eq!(by_scalar.to_sql(), r#""col" = 1"#);

    let mut by_record = Filter::default();
    by_record.add(
        Column::name("col"),
        Value::Record(Box::new(Value::List(vec![Value::Integer(1), Value::Integer(2)]))),
    );
    assert_eq!(by_record.to_sql(), r#""col" = ANY({1, 2})"#);
}

#[test]
fn test_add_not_membership() {
    let mut f = Filter::default();
    f.add_not(
        Column::name("col"),
        Value::List(vec![Value::Integer(56), Value::Integer(67)]),
    );
    f.add_not(Column::name("other"), Value::Integer(9));
    assert_eq!(f.to_sql(), r#""col" <> ANY({56, 67}) AND "other" <> 9"#);
}

#[test]
fn test_where_clause_accumulates() {
    let mut w = WhereClause::default();
    assert_eq!(w.to_sql(), "");
    w.add(Column::new("t", "a"), Value::Integer(1));
    assert_eq!(w.to_sql(), r#" WHERE "t"."a" = 1"#);
    w.concat(two_clause_filter(JoinOp::And)).unwrap();
    assert_eq!(w.to_sql(), r#" WHERE "t"."a" = 1 AND "a" = 1 AND "b" <> 2"#);
    let mismatched = w.concat(two_clause_filter(JoinOp::Or));
    assert!(matches!(mismatched, Err(FilterError::OperatorMismatch)));
    let copy = w.filter();
    assert_eq!(copy.to_sql(), r#""t"."a" = 1 AND "a" = 1 AND "b" <> 2"#);
}

#[test]
fn test_where_clause_or_and() {
    let mut w = WhereClause::default();
    w.or(two_clause_filter(JoinOp::Or));
    assert_eq!(w.to_sql(), r#" WHERE "a" = 1 OR "b" <> 2"#);
    w.and(two_clause_filter(JoinOp::And));
    assert_eq!(
        w.to_sql(),
        r#" WHERE ("a" = 1 OR "b" <> 2) AND ("a" = 1 AND "b" <> 2)"#
    );
}

#[test]
fn test_where_clause_clear() {
    let mut w = WhereClause::default();
    w.add(Column::name("a"), Value::Integer(1));
    w.clear();
    assert_eq!(w.to_sql(), "");
}

#[test]
fn test_string_escaping() {
    let mut f = Filter::default();
    f.add(Column::name("note"), Value::String("it's".into()));
    assert_eq!(f.to_sql(), r#""note" = 'it''s'"#);

    let mut g = Filter::default();
    g.add(Column::new("odd\"table", "col"), Value::Integer(1));
    assert_eq!(g.to_sql(), r#""odd""table"."col" = 1"#);
}

#[test]
fn test_negative_integers() {
    let mut f = Filter::default();
    f.add(Column::name("n"), Value::Integer(-42));
    f.add(Column::name("m"), Value::Integer(i64::MIN));
    assert_eq!(
        f.to_sql(),
        r#""n" = -42 AND "m" = -9223372036854775808"#
    );
}

#[test]
fn test_join_op_keywords() {
    assert_eq!(JoinOp::And.to_sql(), "AND");
    assert_eq!(JoinOp::Or.to_sql(), "OR");
    assert_eq!(JoinOp::default(), JoinOp::And);
}
