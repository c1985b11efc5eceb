//! A backend-agnostic filter model for deleting rows, its translation into
//! parameterised SQL, and the outcome rules of the pooled execution bridge.

pub mod bridge;
pub mod filter;
pub mod json;
pub mod sql;
pub mod user;

pub use bridge::{settle, ConnectionError, ExecError};
pub use filter::{GenericClause, GenericFilter};

pub use sql::{
    delete_query, quote_ident, BindValue, DeleteQuery, Dialect, TableDef, TranslateError,
    TranslateErrorKind,
};
pub use user::DbUser;
