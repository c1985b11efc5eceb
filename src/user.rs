//! The `users` table: an entity with a text key and a name.
use crate::filter::GenericFilter;
use crate::sql::{
    column_names, delete_query, delete_spec, result_view, DeleteQuery, Dialect, TableDef,
    TranslateError,
};
use vstd::prelude::*;

verus! {

/// One row of `users`, keyed by `id`.
#[derive(Clone, Debug)]
pub struct DbUser {
    pub id: String,
    pub name: String,
}

impl DbUser {
    /// The table's name and columns.
    pub fn table() -> (r: TableDef)
        ensures
            r.name@ == "users"@,
            column_names(r.columns@) == seq!["id"@, "name"@],
    {
        let mut columns: Vec<String> = Vec::new();
        columns.push(String::from_str("id"));
        columns.push(String::from_str("name"));
        assert(column_names(columns@) =~= seq!["id"@, "name"@]);
        TableDef { name: String::from_str("users"), columns }
    }

    /// The statement deleting the users that `filter` selects.
    pub fn gen_del_query(d: Dialect, filter: &GenericFilter) -> (r: Result<DeleteQuery, TranslateError>)
        ensures
            result_view(r) == delete_spec("users"@, seq!["id"@, "name"@], d, filter.where_clauses@),
    {
        let table = DbUser::table();
        delete_query(&table, d, filter)
    }
}

} // verus!
