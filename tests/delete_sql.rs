use turbo_diesel::{
    delete_query, quote_ident, settle, BindValue, ConnectionError, DbUser, DeleteQuery, Dialect,
    ExecError, GenericClause, GenericFilter, TableDef, TranslateErrorKind,
};

fn texts(q: &DeleteQuery) -> Vec<String> {
    q.binds
        .iter()
        .map(|b| match b {
            BindValue::Text(s) => s.clone(),
            BindValue::Json(j) => format!("json:{}", j),
        })
        .collect()
}

fn one(key: &str, clause: GenericClause) -> GenericFilter {
    GenericFilter::new().where_clause(key, clause)
}

fn strings(vs: &[&str]) -> Vec<String> {
    vs.iter().map(|s| s.to_string()).collect()
}

#[test]
fn quotes_identifiers() {
    assert_eq!(quote_ident("users"), "\"users\"");
    assert_eq!(quote_ident("a\"b"), "\"a\"\"b\"");
    assert_eq!(quote_ident(""), "\"\"");
}

#[test]
fn empty_filter_deletes_every_row() {
    let q = DbUser::gen_del_query(Dialect::Sqlite, &GenericFilter::new()).unwrap();
    assert_eq!(q.sql, "DELETE FROM \"users\"");
    assert!(q.binds.is_empty());
    let q = DbUser::gen_del_query(Dialect::Postgres, &GenericFilter::new().limit(3).offset(1)).unwrap();
    assert_eq!(q.sql, "DELETE FROM \"users\"");
}

#[test]
fn eq_on_id_deletes_that_row_only() {
    let f = one("id", GenericClause::Eq("1".to_owned()));
    let q = DbUser::gen_del_query(Dialect::Sqlite, &f).unwrap();
    assert_eq!(q.sql, "DELETE FROM \"users\" WHERE \"id\" = ?");
    assert_eq!(texts(&q), strings(&["1"]));
    let q = DbUser::gen_del_query(Dialect::Postgres, &f).unwrap();
    assert_eq!(q.sql, "DELETE FROM \"users\" WHERE \"id\" = $1");
    assert_eq!(texts(&q), strings(&["1"]));
}

#[test]
fn comparison_operators() {
    let cases = vec![
        (GenericClause::Ne("a".to_owned()), "<>"),
        (GenericClause::Gt("a".to_owned()), ">"),
        (GenericClause::Lt("a".to_owned()), "<"),
        (GenericClause::Ge("a".to_owned()), ">="),
        (GenericClause::Le("a".to_owned()), "<="),
        (GenericClause::Like("a%".to_owned()), "LIKE"),
        (GenericClause::NotLike("a%".to_owned()), "NOT LIKE"),
    ];
    for (clause, op) in cases {
        let q = DbUser::gen_del_query(Dialect::Sqlite, &one("name", clause)).unwrap();
        assert_eq!(q.sql, format!("DELETE FROM \"users\" WHERE \"name\" {} ?", op));
        assert_eq!(q.binds.len(), 1);
    }
}

#[test]
fn conjunction_numbers_placeholders_in_order() {
    let f = GenericFilter::new()
        .where_clause("id", GenericClause::Eq("1".to_owned()))
        .where_clause("name", GenericClause::In(strings(&["a", "b"])));
    let q = DbUser::gen_del_query(Dialect::Postgres, &f).unwrap();
    assert_eq!(
        q.sql,
        "DELETE FROM \"users\" WHERE \"id\" = $1 AND \"name\" IN ($2, $3)"
    );
    assert_eq!(texts(&q), strings(&["1", "a", "b"]));
    let q = DbUser::gen_del_query(Dialect::Sqlite, &f).unwrap();
    assert_eq!(q.sql, "DELETE FROM \"users\" WHERE \"id\" = ? AND \"name\" IN (?, ?)");
}

#[test]
fn placeholders_past_nine() {
    let vs: Vec<String> = (0..11).map(|i| i.to_string()).collect();
    let q = DbUser::gen_del_query(Dialect::Postgres, &one("id", GenericClause::NotIn(vs.clone())))
        .unwrap();
    assert_eq!(
        q.sql,
        "DELETE FROM \"users\" WHERE \"id\" NOT IN ($1, $2, $3, $4, $5, $6, $7, $8, $9, $10, $11)"
    );
    assert_eq!(texts(&q), vs);
}

#[test]
fn empty_in_matches_nothing() {
    let f = GenericFilter::new()
        .where_clause("name", GenericClause::Eq("x".to_owned()))
        .where_clause("id", GenericClause::In(vec![]));
    let q = DbUser::gen_del_query(Dialect::Sqlite, &f).unwrap();
    assert_eq!(q.sql, "DELETE FROM \"users\" WHERE \"name\" = ? AND 1 = 0");
    assert_eq!(texts(&q), strings(&["x"]));
}

#[test]
fn empty_not_in_constrains_nothing() {
    let q = DbUser::gen_del_query(Dialect::Postgres, &one("id", GenericClause::NotIn(vec![])))
        .unwrap();
    assert_eq!(q.sql, "DELETE FROM \"users\" WHERE 1 = 1");
    assert!(q.binds.is_empty());
}

#[test]
fn null_checks_take_no_operand() {
    let q = DbUser::gen_del_query(Dialect::Sqlite, &one("name", GenericClause::IsNull)).unwrap();
    assert_eq!(q.sql, "DELETE FROM \"users\" WHERE \"name\" IS NULL");
    assert!(q.binds.is_empty());
    let q = DbUser::gen_del_query(Dialect::Sqlite, &one("name", GenericClause::IsNotNull)).unwrap();
    assert_eq!(q.sql, "DELETE FROM \"users\" WHERE \"name\" IS NOT NULL");
}

#[test]
fn json_clauses() {
    let doc: serde_json::Value = serde_json::from_str("{\"a\":1}").unwrap();
    let q = DbUser::gen_del_query(Dialect::Postgres, &one("name", GenericClause::Contains(doc.clone())))
        .unwrap();
    assert_eq!(q.sql, "DELETE FROM \"users\" WHERE \"name\" @> $1");
    assert!(matches!(&q.binds[0], BindValue::Json(j) if *j == doc));
    let q = DbUser::gen_del_query(Dialect::Postgres, &one("name", GenericClause::HasKey("a".to_owned())))
        .unwrap();
    assert_eq!(q.sql, "DELETE FROM \"users\" WHERE jsonb_exists(\"name\", $1)");
    assert_eq!(texts(&q), strings(&["a"]));
    let q = DbUser::gen_del_query(Dialect::Sqlite, &one("name", GenericClause::HasKey("a".to_owned())))
        .unwrap();
    assert_eq!(
        q.sql,
        "DELETE FROM \"users\" WHERE EXISTS (SELECT 1 FROM json_each(\"name\") WHERE key = ?)"
    );
}

#[test]
fn contains_is_unsupported_on_sqlite() {
    let doc: serde_json::Value = serde_json::from_str("[1]").unwrap();
    let e = DbUser::gen_del_query(Dialect::Sqlite, &one("name", GenericClause::Contains(doc)))
        .unwrap_err();
    assert_eq!(e.kind, TranslateErrorKind::Unsupported);
    assert_eq!(e.field, "name");
}

#[test]
fn unknown_column_is_rejected() {
    let f = GenericFilter::new()
        .where_clause("id", GenericClause::Eq("1".to_owned()))
        .where_clause("age", GenericClause::IsNull);
    let e = DbUser::gen_del_query(Dialect::Postgres, &f).unwrap_err();
    assert_eq!(e.kind, TranslateErrorKind::UnknownField);
    assert_eq!(e.field, "age");
}

#[test]
fn custom_table_is_quoted() {
    let table = TableDef {
        name: "my\"table".to_owned(),
        columns: strings(&["k"]),
    };
    let q = delete_query(&table, Dialect::Sqlite, &one("k", GenericClause::Eq("v".to_owned()))).unwrap();
    assert_eq!(q.sql, "DELETE FROM \"my\"\"table\" WHERE \"k\" = ?");
}

#[test]
fn settle_outcomes() {
    let r: Result<u32, ExecError<String>> = settle(None);
    assert!(matches!(r, Err(ExecError::TaskFailed)));
    let r: Result<u32, ExecError<String>> =
        settle(Some(Err(ConnectionError::AcquireFailed("timeout".to_owned()))));
    assert!(matches!(r, Err(ExecError::ConnectionUnavailable(ConnectionError::AcquireFailed(m))) if m == "timeout"));
    let r: Result<u32, ExecError<String>> = settle(Some(Ok(Err("constraint".to_owned()))));
    assert!(matches!(r, Err(ExecError::Backend(e)) if e == "constraint"));
    let r: Result<u32, ExecError<String>> = settle(Some(Ok(Ok(7))));
    assert!(matches!(r, Ok(7)));
}
