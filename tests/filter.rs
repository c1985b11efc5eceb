use turbo_diesel::{GenericClause, GenericFilter};

fn keys(f: &GenericFilter) -> Vec<String> {
    f.where_clauses.iter().map(|(k, _)| k.clone()).collect()
}

#[test]
fn new_filter_is_empty() {
    let f = GenericFilter::new();
    assert!(f.where_clauses.is_empty());
    assert_eq!(f.limit, None);
    assert_eq!(f.offset, None);
}

#[test]
fn limit_and_offset_are_set() {
    let f = GenericFilter::new().limit(10).offset(20);
    assert_eq!(f.limit, Some(10));
    assert_eq!(f.offset, Some(20));
    let f = f.limit(5);
    assert_eq!(f.limit, Some(5));
    assert_eq!(f.offset, Some(20));
}

#[test]
fn where_clause_adds_in_order() {
    let f = GenericFilter::new()
        .where_clause("id", GenericClause::Eq("1".to_owned()))
        .where_clause("name", GenericClause::IsNull);
    assert_eq!(keys(&f), vec!["id".to_owned(), "name".to_owned()]);
    assert!(matches!(&f.where_clauses[0].1, GenericClause::Eq(v) if v == "1"));
    assert!(matches!(f.where_clauses[1].1, GenericClause::IsNull));
}

#[test]
fn where_clause_replaces_same_column() {
    let f = GenericFilter::new()
        .where_clause("id", GenericClause::Eq("1".to_owned()))
        .where_clause("name", GenericClause::IsNull)
        .where_clause("id", GenericClause::Ne("2".to_owned()));
    assert_eq!(keys(&f), vec!["id".to_owned(), "name".to_owned()]);
    assert!(matches!(&f.where_clauses[0].1, GenericClause::Ne(v) if v == "2"));
}
