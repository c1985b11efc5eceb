//! The filter model: a set of per-column predicates and a pagination window.
use vstd::prelude::*;

verus! {

/// One predicate on one column. Operands are kept as text (or JSON) and are
/// typed only by the database when the statement runs.
#[derive(Clone, Debug)]
pub enum GenericClause {
    /// The column equals the operand.
    Eq(String),
    /// The column differs from the operand.
    Ne(String),
    /// The column is greater than the operand.
    Gt(String),
    /// The column is less than the operand.
    Lt(String),
    /// The column is greater than or equal to the operand.
    Ge(String),
    /// The column is less than or equal to the operand.
    Le(String),
    /// The column matches the pattern, in the backend's wildcard syntax.
    Like(String),
    /// The column does not match the pattern.
    NotLike(String),
    /// The column is one of the values; with no values nothing matches.
    In(Vec<String>),
    /// The column is none of the values; with no values every row matches.
    NotIn(Vec<String>),
    /// The column is null.
    IsNull,
    /// The column is not null.
    IsNotNull,
    /// The column's JSON content contains the given document.
    Contains(serde_json::Value),
    /// The column's JSON content has the given top-level key.
    HasKey(String),
}

/// A filter: predicates on named columns, all of which must hold, and an
/// optional window of rows.
///
/// `where_clauses` holds each column at most once, in the order it was first
/// given. `limit` left unset means the query builder's default row count,
/// not "no limit". Deletion ignores `limit` and `offset`: neither backend's
/// `DELETE` takes them.
#[derive(Clone, Debug)]
pub struct GenericFilter {
    /// Column name and the predicate on it.
    pub where_clauses: Vec<(String, GenericClause)>,
    /// Largest number of rows to return.
    pub limit: Option<usize>,
    /// Number of rows to skip.
    pub offset: Option<usize>,
}

/// No column name occurs twice.
pub open spec fn keys_unique(s: Seq<(String, GenericClause)>) -> bool {
    forall|i: int, j: int| 0 <= i < j < s.len() ==> s[i].0@ != s[j].0@
}

/// Some entry is keyed by `key`.
pub open spec fn has_key(s: Seq<(String, GenericClause)>, key: Seq<char>) -> bool {
    exists|i: int| 0 <= i < s.len() && s[i].0@ == key
}

impl GenericFilter {
    /// Well formed: each column is constrained at most once.
    pub open spec fn wf(&self) -> bool {
        keys_unique(self.where_clauses@)
    }

    /// An empty filter: no predicate, no window.
    pub fn new() -> (r: Self)
        ensures
            r.wf(),
            r.where_clauses@.len() == 0,
            r.limit is None,
            r.offset is None,
    {
        GenericFilter { where_clauses: Vec::new(), limit: None, offset: None }
    }

    /// The same filter with its limit set.
    pub fn limit(self, limit: usize) -> (r: Self)
        ensures
            r.where_clauses == self.where_clauses,
            r.limit == Some(limit),
            r.offset == self.offset,
    {
        GenericFilter { limit: Some(limit), ..self }
    }

    /// The same filter with its offset set.
    pub fn offset(self, offset: usize) -> (r: Self)
        ensures
            r.where_clauses == self.where_clauses,
            r.limit == self.limit,
            r.offset == Some(offset),
    {
        GenericFilter { offset: Some(offset), ..self }
    }

    /// The same filter with `clause` on column `key`: it replaces the clause
    /// that column had, else it is added after the others.
    pub fn where_clause(self, key: &str, clause: GenericClause) -> (r: Self)
        requires
            self.wf(),
        ensures
            r.wf(),
            r.limit == self.limit,
            r.offset == self.offset,
            has_key(self.where_clauses@, key@) ==> exists|i: int|
                0 <= i < self.where_clauses@.len() && self.where_clauses@[i].0@ == key@
                    && r.where_clauses@ == self.where_clauses@.update(
                    i,
                    (self.where_clauses@[i].0, clause),
                ),
            !has_key(self.where_clauses@, key@) ==> r.where_clauses@.len()
                == self.where_clauses@.len() + 1 && r.where_clauses@.drop_last()
                == self.where_clauses@ && r.where_clauses@.last().0@ == key@
                && r.where_clauses@.last().1 == clause,
    {
        let k = String::from_str(key);
        let mut entries = self.where_clauses;
        let ghost old_entries = entries@;
        let n = entries.len();
        let mut i: usize = 0;
        while i < n
            invariant
                n == entries@.len(),
                entries@ == old_entries,
                k@ == key@,
                keys_unique(old_entries),
                old_entries == self.where_clauses@,
                i <= n,
                forall|j: int| 0 <= j < i ==> old_entries[j].0@ != key@,
            decreases n - i,
        {
            if entries[i].0 == k {
                let (old_key, _) = entries.remove(i);
                entries.insert(i, (old_key, clause));
                assert(entries@ =~= old_entries.update(i as int, (old_entries[i as int].0, clause)));
                assert(old_entries[i as int].0@ == key@);
                assert(keys_unique(entries@)) by {
                    assert forall|a: int, b: int| 0 <= a < b < entries@.len() implies entries@[a].0@
                        != entries@[b].0@ by {
                        assert(entries@[a].0 == old_entries[a].0);
                        assert(entries@[b].0 == old_entries[b].0);
                    }
                }
                return GenericFilter { where_clauses: entries, limit: self.limit, offset: self.offset };
            }
            i = i + 1;
        }
        entries.push((k, clause));
        assert(entries@.drop_last() =~= old_entries);
        assert(!has_key(old_entries, key@));
        assert(keys_unique(entries@)) by {
            assert forall|a: int, b: int| 0 <= a < b < entries@.len() implies entries@[a].0@
                != entries@[b].0@ by {
                if b < old_entries.len() {
                    assert(entries@[a] == old_entries[a]);
                    assert(entries@[b] == old_entries[b]);
                } else {
                    assert(entries@[a] == old_entries[a]);
                }
            }
        }
        GenericFilter { where_clauses: entries, limit: self.limit, offset: self.offset }
    }
}

} // verus!
