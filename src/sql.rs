//! Translation of a filter into one parameterised `DELETE` statement.
//!
//! Every predicate present in the filter becomes one conjunct of the `WHERE`
//! clause, in the filter's order; operands never enter the SQL text but are
//! handed over as bind values, numbered in order of appearance.
use crate::filter::{GenericClause, GenericFilter};
use vstd::prelude::*;

verus! {

/// The SQL dialect a statement is written for.
#[derive(Clone, Copy, Debug, PartialEq, Eq, Structural)]
pub enum Dialect {
    /// SQLite: `?` placeholders, JSON through the `json_each` table function.
    Sqlite,
    /// PostgreSQL: `$n` placeholders, `jsonb` operators.
    Postgres,
}

/// A value bound to one placeholder of a statement.
#[derive(Clone, Debug)]
pub enum BindValue {
    /// Bound as text.
    Text(String),
    /// Bound as a JSON document.
    Json(serde_json::Value),
}

/// What a bind value stands for.
pub enum BindView {
    Text(Seq<char>),
    Json(serde_json::Value),
}

impl View for BindValue {
    type V = BindView;

    open spec fn view(&self) -> BindView {
        match self {
            BindValue::Text(s) => BindView::Text(s@),
            BindValue::Json(j) => BindView::Json(*j),
        }
    }
}

pub open spec fn binds_view(s: Seq<BindValue>) -> Seq<BindView> {
    s.map_values(|b: BindValue| b@)
}

/// A statement and the values for its placeholders, in order.
#[derive(Clone, Debug)]
pub struct DeleteQuery {
    pub sql: String,
    pub binds: Vec<BindValue>,
}

impl View for DeleteQuery {
    type V = (Seq<char>, Seq<BindView>);

    open spec fn view(&self) -> (Seq<char>, Seq<BindView>) {
        (self.sql@, binds_view(self.binds@))
    }
}

/// Why a filter has no translation.
#[derive(Clone, Copy, Debug, PartialEq, Eq, Structural)]
pub enum TranslateErrorKind {
    /// The filter names a column that the table does not have.
    UnknownField,
    /// The dialect has no predicate for this clause.
    Unsupported,
}

/// A translation failure, with the column it arose on.
#[derive(Clone, Debug)]
pub struct TranslateError {
    pub kind: TranslateErrorKind,
    pub field: String,
}

impl View for TranslateError {
    type V = (TranslateErrorKind, Seq<char>);

    open spec fn view(&self) -> (TranslateErrorKind, Seq<char>) {
        (self.kind, self.field@)
    }
}

/// A table: its name and the columns a filter may name.
#[derive(Clone, Debug)]
pub struct TableDef {
    pub name: String,
    pub columns: Vec<String>,
}

/// Each `"` doubled, as inside a quoted SQL identifier.
pub open spec fn escape_quotes(s: Seq<char>) -> Seq<char>
    decreases s.len(),
{
    if s.len() == 0 {
        seq![]
    } else if s.last() == '"' {
        escape_quotes(s.drop_last()) + seq!['"', '"']
    } else {
        escape_quotes(s.drop_last()).push(s.last())
    }
}

/// `s` as a quoted SQL identifier.
pub open spec fn quoted(s: Seq<char>) -> Seq<char> {
    seq!['"'] + escape_quotes(s) + seq!['"']
}

/// The decimal digit for `d < 10`.
pub open spec fn digit(d: nat) -> char {
    if d == 0 {
        '0'
    } else if d == 1 {
        '1'
    } else if d == 2 {
        '2'
    } else if d == 3 {
        '3'
    } else if d == 4 {
        '4'
    } else if d == 5 {
        '5'
    } else if d == 6 {
        '6'
    } else if d == 7 {
        '7'
    } else if d == 8 {
        '8'
    } else {
        '9'
    }
}

/// `n` in base ten, without sign or leading zeros.
pub open spec fn decimal(n: nat) -> Seq<char>
    decreases n,
{
    if n < 10 {
        seq![digit(n)]
    } else {
        decimal(n / 10).push(digit(n % 10))
    }
}

/// The placeholder of the `n`-th bind value (counted from 1).
pub open spec fn placeholder(d: Dialect, n: nat) -> Seq<char> {
    match d {
        Dialect::Sqlite => seq!['?'],
        Dialect::Postgres => seq!['$'] + decimal(n),
    }
}

/// The placeholders of binds `first + 1` to `first + count`, separated by `, `.
pub open spec fn placeholder_list(d: Dialect, first: nat, count: nat) -> Seq<char>
    decreases count,
{
    if count == 0 {
        seq![]
    } else if count == 1 {
        placeholder(d, first + 1)
    } else {
        placeholder_list(d, first, (count - 1) as nat) + ", "@ + placeholder(d, first + count)
    }
}

pub open spec fn text_binds(vs: Seq<String>) -> Seq<BindView> {
    vs.map_values(|v: String| BindView::Text(v@))
}

/// Column `q` compared by `op` with one operand, the bind after the first `n`.
pub open spec fn comparison(d: Dialect, q: Seq<char>, op: Seq<char>, n: nat, v: String) -> (
    Seq<char>,
    Seq<BindView>,
) {
    (q + op + placeholder(d, n + 1), seq![BindView::Text(v@)])
}

/// Column `q` tested against a list of operands; `empty` is the whole
/// predicate when the list is empty.
pub open spec fn membership(
    d: Dialect,
    q: Seq<char>,
    op: Seq<char>,
    empty: Seq<char>,
    n: nat,
    vs: Seq<String>,
) -> (Seq<char>, Seq<BindView>) {
    if vs.len() == 0 {
        (empty, seq![])
    } else {
        (q + op + placeholder_list(d, n, vs.len()) + ")"@, text_binds(vs))
    }
}

/// The predicate for clause `c` on the quoted column `q`, and its bind values,
/// when `n` binds come before it; `None` where the dialect has no such predicate.
pub open spec fn clause_pred(d: Dialect, q: Seq<char>, c: GenericClause, n: nat) -> Option<
    (Seq<char>, Seq<BindView>),
> {
    match c {
        GenericClause::Eq(v) => Some(comparison(d, q, " = "@, n, v)),
        GenericClause::Ne(v) => Some(comparison(d, q, " <> "@, n, v)),
        GenericClause::Gt(v) => Some(comparison(d, q, " > "@, n, v)),
        GenericClause::Lt(v) => Some(comparison(d, q, " < "@, n, v)),
        GenericClause::Ge(v) => Some(comparison(d, q, " >= "@, n, v)),
        GenericClause::Le(v) => Some(comparison(d, q, " <= "@, n, v)),
        GenericClause::Like(v) => Some(comparison(d, q, " LIKE "@, n, v)),
        GenericClause::NotLike(v) => Some(comparison(d, q, " NOT LIKE "@, n, v)),
        GenericClause::In(vs) => Some(membership(d, q, " IN ("@, "1 = 0"@, n, vs@)),
        GenericClause::NotIn(vs) => Some(membership(d, q, " NOT IN ("@, "1 = 1"@, n, vs@)),
        GenericClause::IsNull => Some((q + " IS NULL"@, seq![])),
        GenericClause::IsNotNull => Some((q + " IS NOT NULL"@, seq![])),
        GenericClause::Contains(j) => match d {
            Dialect::Sqlite => None,
            Dialect::Postgres => Some((q + " @> "@ + placeholder(d, n + 1), seq![BindView::Json(j)])),
        },
        GenericClause::HasKey(k) => match d {
            Dialect::Sqlite => Some(
                (
                    "EXISTS (SELECT 1 FROM json_each("@ + q + ") WHERE key = "@ + placeholder(d, n + 1)
                        + ")"@,
                    seq![BindView::Text(k@)],
                ),
            ),
            Dialect::Postgres => Some(
                (
                    "jsonb_exists("@ + q + ", "@ + placeholder(d, n + 1) + ")"@,
                    seq![BindView::Text(k@)],
                ),
            ),
        },
    }
}

pub open spec fn column_names(cols: Seq<String>) -> Seq<Seq<char>> {
    cols.map_values(|c: String| c@)
}

/// The conjuncts and bind values for the entries `es` over the columns `cols`,
/// or the first entry that has no translation.
pub open spec fn where_parts(d: Dialect, cols: Seq<Seq<char>>, es: Seq<(String, GenericClause)>) -> Result<
    (Seq<Seq<char>>, Seq<BindView>),
    (TranslateErrorKind, Seq<char>),
>
    decreases es.len(),
{
    if es.len() == 0 {
        Ok((seq![], seq![]))
    } else {
        match where_parts(d, cols, es.drop_last()) {
            Err(e) => Err(e),
            Ok((ps, bs)) => {
                let k = es.last().0@;
                if !cols.contains(k) {
                    Err((TranslateErrorKind::UnknownField, k))
                } else {
                    match clause_pred(d, quoted(k), es.last().1, bs.len()) {
                        None => Err((TranslateErrorKind::Unsupported, k)),
                        Some((p, nb)) => Ok((ps.push(p), bs + nb)),
                    }
                }
            },
        }
    }
}

/// The conjuncts joined by ` AND `.
pub open spec fn join_and(ps: Seq<Seq<char>>) -> Seq<char>
    decreases ps.len(),
{
    if ps.len() == 0 {
        seq![]
    } else if ps.len() == 1 {
        ps[0]
    } else {
        join_and(ps.drop_last()) + " AND "@ + ps.last()
    }
}

/// The `WHERE` clause for the conjuncts; none at all when there are none.
pub open spec fn where_suffix(ps: Seq<Seq<char>>) -> Seq<char> {
    if ps.len() == 0 {
        seq![]
    } else {
        " WHERE "@ + join_and(ps)
    }
}

/// The statement deleting, from `table`, the rows on which every entry holds.
pub open spec fn delete_spec(
    table: Seq<char>,
    cols: Seq<Seq<char>>,
    d: Dialect,
    es: Seq<(String, GenericClause)>,
) -> Result<(Seq<char>, Seq<BindView>), (TranslateErrorKind, Seq<char>)> {
    match where_parts(d, cols, es) {
        Err(e) => Err(e),
        Ok((ps, bs)) => Ok(("DELETE FROM "@ + quoted(table) + where_suffix(ps), bs)),
    }
}

/// The statement and binds, or the failure's kind and column.
pub open spec fn result_view(r: Result<DeleteQuery, TranslateError>) -> Result<
    (Seq<char>, Seq<BindView>),
    (TranslateErrorKind, Seq<char>),
> {
    match r {
        Ok(q) => Ok(q@),
        Err(e) => Err(e@),
    }
}

/// Relies on `String::push`: the character is appended.
#[verifier::external_body]
fn push_char(s: &mut String, c: char)
    ensures
        final(s)@ == old(s)@.push(c),
{
    s.push(c)
}

/// Relies on `usize`'s `Display` (through `to_string`): base ten, no sign, no padding.
#[verifier::external_body]
fn decimal_text(n: usize) -> (r: String)
    ensures
        r@ == decimal(n as nat),
{
    n.to_string()
}

/// `s` as a quoted SQL identifier.
pub fn quote_ident(s: &str) -> (r: String)
    ensures
        r@ == quoted(s@),
{
    let mut out = String::new();
    push_char(&mut out, '"');
    let n = s.unicode_len();
    let mut i: usize = 0;
    while i < n
        invariant
            n == s@.len(),
            i <= n,
            out@ == seq!['"'] + escape_quotes(s@.subrange(0, i as int)),
        decreases n - i,
    {
        let c = s.get_char(i);
        assert(s@.subrange(0, i + 1).drop_last() =~= s@.subrange(0, i as int));
        if c == '"' {
            push_char(&mut out, '"');
            push_char(&mut out, '"');
        } else {
            push_char(&mut out, c);
        }
        i = i + 1;
        assert(out@ =~= seq!['"'] + escape_quotes(s@.subrange(0, i as int)));
    }
    assert(s@.subrange(0, n as int) =~= s@);
    push_char(&mut out, '"');
    assert(out@ =~= quoted(s@));
    out
}

fn push_placeholder(d: Dialect, n: usize, out: &mut String)
    ensures
        final(out)@ == old(out)@ + placeholder(d, n as nat),
{
    match d {
        Dialect::Sqlite => {
            push_char(out, '?');
        },
        Dialect::Postgres => {
            push_char(out, '$');
            let digits = decimal_text(n);
            out.append(digits.as_str());
        },
    }
}


/// Appends a text bind and returns `q op placeholder`.
fn comparison_sql(d: Dialect, q: &String, op: &str, v: &String, binds: &mut Vec<BindValue>) -> (r:
    String)
    ensures
        (r@, binds_view(final(binds)@)) == ({
            let (p, nb) = comparison(d, q@, op@, old(binds)@.len() as nat, *v);
            (p, binds_view(old(binds)@) + nb)
        }),
{
    binds.push(BindValue::Text(v.clone()));
    let mut out = q.clone();
    out.append(op);
    push_placeholder(d, binds.len(), &mut out);
    assert(binds_view(binds@) =~= binds_view(old(binds)@) + seq![BindView::Text(v@)]);
    out
}

/// Appends one text bind per value and returns the membership predicate.
fn membership_sql(
    d: Dialect,
    q: &String,
    op: &str,
    empty: &str,
    vs: &Vec<String>,
    binds: &mut Vec<BindValue>,
) -> (r: String)
    ensures
        (r@, binds_view(final(binds)@)) == ({
            let (p, nb) = membership(d, q@, op@, empty@, old(binds)@.len() as nat, vs@);
            (p, binds_view(old(binds)@) + nb)
        }),
{
    let ghost n0 = binds@.len();
    let ghost b0 = binds_view(binds@);
    if vs.len() == 0 {
        let r = String::from_str(empty);
        assert(binds_view(binds@) =~= b0 + seq![]);
        return r;
    }
    let mut out = q.clone();
    out.append(op);
    let mut j: usize = 0;
    while j < vs.len()
        invariant
            j <= vs@.len(),
            binds@.len() == n0 + j,
            out@ == q@ + op@ + placeholder_list(d, n0 as nat, j as nat),
            binds_view(binds@) == b0 + text_binds(vs@.subrange(0, j as int)),
        decreases vs@.len() - j,
    {
        if j > 0 {
            out.append(", ");
        }
        let ghost bprev = binds@;
        binds.push(BindValue::Text(vs[j].clone()));
        assert(binds_view(binds@) =~= binds_view(bprev).push(BindView::Text(vs@[j as int]@)));
        push_placeholder(d, binds.len(), &mut out);
        assert(vs@.subrange(0, j + 1) =~= vs@.subrange(0, j as int).push(vs@[j as int]));
        assert(text_binds(vs@.subrange(0, j + 1)) =~= text_binds(vs@.subrange(0, j as int)).push(
            BindView::Text(vs@[j as int]@),
        ));
        j = j + 1;
        assert(binds_view(binds@) =~= b0 + text_binds(vs@.subrange(0, j as int)));
        assert(out@ =~= q@ + op@ + placeholder_list(d, n0 as nat, j as nat));
    }
    assert(vs@.subrange(0, j as int) =~= vs@);
    out.append(")");
    out
}

/// Appends the bind values of clause `c` on the quoted column `q` and returns
/// its predicate; `None`, with nothing appended, where the dialect has none.
fn clause_sql(d: Dialect, q: &String, c: &GenericClause, binds: &mut Vec<BindValue>) -> (r: Option<
    String,
>)
    ensures
        match clause_pred(d, q@, *c, old(binds)@.len() as nat) {
            None => r is None && final(binds)@ == old(binds)@,
            Some((p, nb)) => r is Some && r->0@ == p && binds_view(final(binds)@) == binds_view(
                old(binds)@,
            ) + nb,
        },
{
    let ghost b0 = binds_view(binds@);
    match c {
        GenericClause::Eq(v) => Some(comparison_sql(d, q, " = ", v, binds)),
        GenericClause::Ne(v) => Some(comparison_sql(d, q, " <> ", v, binds)),
        GenericClause::Gt(v) => Some(comparison_sql(d, q, " > ", v, binds)),
        GenericClause::Lt(v) => Some(comparison_sql(d, q, " < ", v, binds)),
        GenericClause::Ge(v) => Some(comparison_sql(d, q, " >= ", v, binds)),
        GenericClause::Le(v) => Some(comparison_sql(d, q, " <= ", v, binds)),
        GenericClause::Like(v) => Some(comparison_sql(d, q, " LIKE ", v, binds)),
        GenericClause::NotLike(v) => Some(comparison_sql(d, q, " NOT LIKE ", v, binds)),
        GenericClause::In(vs) => Some(membership_sql(d, q, " IN (", "1 = 0", vs, binds)),
        GenericClause::NotIn(vs) => Some(membership_sql(d, q, " NOT IN (", "1 = 1", vs, binds)),
        GenericClause::IsNull => {
            let mut out = q.clone();
            out.append(" IS NULL");
            assert(binds_view(binds@) =~= b0 + seq![]);
            Some(out)
        },
        GenericClause::IsNotNull => {
            let mut out = q.clone();
            out.append(" IS NOT NULL");
            assert(binds_view(binds@) =~= b0 + seq![]);
            Some(out)
        },
        GenericClause::Contains(j) => match d {
            Dialect::Sqlite => None,
            Dialect::Postgres => {
                binds.push(BindValue::Json(j.clone()));
                let mut out = q.clone();
                out.append(" @> ");
                push_placeholder(d, binds.len(), &mut out);
                assert(binds_view(binds@) =~= b0 + seq![BindView::Json(*j)]);
                Some(out)
            },
        },
        GenericClause::HasKey(k) => {
            binds.push(BindValue::Text(k.clone()));
            let mut out = String::new();
            match d {
                Dialect::Sqlite => {
                    out.append("EXISTS (SELECT 1 FROM json_each(");
                    out.append(q.as_str());
                    out.append(") WHERE key = ");
                },
                Dialect::Postgres => {
                    out.append("jsonb_exists(");
                    out.append(q.as_str());
                    out.append(", ");
                },
            }
            push_placeholder(d, binds.len(), &mut out);
            out.append(")");
            assert(binds_view(binds@) =~= b0 + seq![BindView::Text(k@)]);
            Some(out)
        },
    }
}

/// Whether `k` is one of `cols`.
fn column_known(cols: &Vec<String>, k: &String) -> (r: bool)
    ensures
        r == column_names(cols@).contains(k@),
{
    let mut i: usize = 0;
    while i < cols.len()
        invariant
            i <= cols@.len(),
            forall|j: int| 0 <= j < i ==> cols@[j]@ != k@,
        decreases cols@.len() - i,
    {
        if cols[i] == *k {
            assert(column_names(cols@)[i as int] == k@);
            return true;
        }
        i = i + 1;
    }
    assert(!column_names(cols@).contains(k@)) by {
        if column_names(cols@).contains(k@) {
            let j = choose|j: int| 0 <= j < column_names(cols@).len() && column_names(cols@)[j] == k@;
            assert(cols@[j]@ == k@);
        }
    }
    false
}

/// An error on a prefix of the entries is the error of all of them.
proof fn lemma_error_persists(
    d: Dialect,
    cols: Seq<Seq<char>>,
    es: Seq<(String, GenericClause)>,
    i: int,
)
    requires
        0 <= i <= es.len(),
        where_parts(d, cols, es.subrange(0, i)) is Err,
    ensures
        where_parts(d, cols, es) == where_parts(d, cols, es.subrange(0, i)),
    decreases es.len() - i,
{
    if i < es.len() {
        assert(es.subrange(0, i + 1).drop_last() =~= es.subrange(0, i));
        lemma_error_persists(d, cols, es, i + 1);
    } else {
        assert(es.subrange(0, i) =~= es);
    }
}

/// The statement deleting from `table` the rows that `filter` selects.
/// Fails on the first entry that names a column the table lacks, or whose
/// clause the dialect cannot express. `limit` and `offset` are ignored.
pub fn delete_query(table: &TableDef, d: Dialect, filter: &GenericFilter) -> (r: Result<
    DeleteQuery,
    TranslateError,
>)
    ensures
        result_view(r) == delete_spec(
            table.name@,
            column_names(table.columns@),
            d,
            filter.where_clauses@,
        ),
{
    let ghost cols = column_names(table.columns@);
    let ghost es = filter.where_clauses@;
    let mut sql = String::new();
    sql.append("DELETE FROM ");
    let qt = quote_ident(table.name.as_str());
    sql.append(qt.as_str());
    let ghost head = sql@;
    let mut binds: Vec<BindValue> = Vec::new();
    let ghost mut ps: Seq<Seq<char>> = seq![];
    let n = filter.where_clauses.len();
    let mut i: usize = 0;
    assert(es.subrange(0, 0) =~= seq![]);
    assert(binds_view(binds@) =~= seq![]);
    while i < n
        invariant
            n == es.len(),
            i <= n,
            head == "DELETE FROM "@ + quoted(table.name@),
            cols == column_names(table.columns@),
            es == filter.where_clauses@,
            where_parts(d, cols, es.subrange(0, i as int)) == Ok::<_, (TranslateErrorKind, Seq<char>)>(
                (ps, binds_view(binds@)),
            ),
            sql@ == head + where_suffix(ps),
        decreases n - i,
    {
        let key = &filter.where_clauses[i].0;
        let clause = &filter.where_clauses[i].1;
        let ghost pre = es.subrange(0, i as int);
        assert(es.subrange(0, i + 1).drop_last() =~= pre);
        assert(es.subrange(0, i + 1).last() == es[i as int]);
        if !column_known(&table.columns, key) {
            proof {
                lemma_error_persists(d, cols, es, i + 1);
            }
            return Err(TranslateError { kind: TranslateErrorKind::UnknownField, field: key.clone() });
        }
        let q = quote_ident(key.as_str());
        let p = clause_sql(d, &q, clause, &mut binds);
        match p {
            None => {
                proof {
                    lemma_error_persists(d, cols, es, i + 1);
                }
                return Err(TranslateError { kind: TranslateErrorKind::Unsupported, field: key.clone() });
            },
            Some(p) => {
                if i == 0 {
                    sql.append(" WHERE ");
                } else {
                    sql.append(" AND ");
                }
                sql.append(p.as_str());
                proof {
                    let ps1 = ps.push(p@);
                    assert(ps1.drop_last() =~= ps);
                    ps = ps1;
                }
                i = i + 1;
                assert(sql@ =~= head + where_suffix(ps));
            },
        }
    }
    assert(es.subrange(0, n as int) =~= es);
    Ok(DeleteQuery { sql, binds })
}


/// The conjunct that a clause gives whatever its column and position:
/// an empty `In` is false, an empty `NotIn` is true.
pub open spec fn fixed_conjunct(c: GenericClause) -> Option<Seq<char>> {
    match c {
        GenericClause::In(vs) => if vs@.len() == 0 {
            Some("1 = 0"@)
        } else {
            None
        },
        GenericClause::NotIn(vs) => if vs@.len() == 0 {
            Some("1 = 1"@)
        } else {
            None
        },
        _ => None,
    }
}

/// A translated filter has one conjunct per entry, at the entry's position.
proof fn lemma_fixed_conjuncts(d: Dialect, cols: Seq<Seq<char>>, es: Seq<(String, GenericClause)>)
    ensures
        where_parts(d, cols, es) matches Ok((ps, _)) ==> {
            &&& ps.len() == es.len()
            &&& forall|j: int|
                0 <= j < es.len() && #[trigger] fixed_conjunct(es[j].1) is Some ==> ps[j]
                    == fixed_conjunct(es[j].1)->0
        },
    decreases es.len(),
{
    if es.len() > 0 {
        lemma_fixed_conjuncts(d, cols, es.drop_last());
        if let Ok((ps, _)) = where_parts(d, cols, es) {
            assert forall|j: int|
                0 <= j < es.len() && #[trigger] fixed_conjunct(es[j].1) is Some implies ps[j]
                == fixed_conjunct(es[j].1)->0 by {
                if j < es.len() - 1 {
                    assert(es.drop_last()[j] == es[j]);
                }
            }
        }
    }
}

/// A filter without predicates deletes every row: its statement has no
/// `WHERE` clause and no bind values.
pub proof fn law_empty_filter_deletes_all(table: TableDef, d: Dialect, filter: GenericFilter)
    requires
        filter.where_clauses@.len() == 0,
    ensures
        delete_spec(table.name@, column_names(table.columns@), d, filter.where_clauses@) == Ok::<
            _,
            (TranslateErrorKind, Seq<char>),
        >(("DELETE FROM "@ + quoted(table.name@), Seq::<BindView>::empty())),
{
    assert(("DELETE FROM "@ + quoted(table.name@)) + seq![] =~= "DELETE FROM "@ + quoted(
        table.name@,
    ));
}

/// An `In` with no values deletes no row: wherever the filter translates,
/// the conjunct at its position in the `WHERE` clause is the false `1 = 0`.
pub proof fn law_empty_in_deletes_nothing(table: TableDef, d: Dialect, filter: GenericFilter, i: int)
    requires
        0 <= i < filter.where_clauses@.len(),
        filter.where_clauses@[i].1 matches GenericClause::In(vs) && vs@.len() == 0,
    ensures
        delete_spec(table.name@, column_names(table.columns@), d, filter.where_clauses@) matches Ok(
            (sql, _),
        ) ==> exists|ps: Seq<Seq<char>>|
            ps.len() == filter.where_clauses@.len() && ps[i] == "1 = 0"@ && sql == "DELETE FROM "@
                + quoted(table.name@) + " WHERE "@ + join_and(ps),
{
    let cols = column_names(table.columns@);
    let es = filter.where_clauses@;
    lemma_fixed_conjuncts(d, cols, es);
    assert(fixed_conjunct(es[i].1) is Some);
    if let Ok((ps, _)) = where_parts(d, cols, es) {
        assert(ps.len() == es.len() && ps[i] == "1 = 0"@);
        assert(("DELETE FROM "@ + quoted(table.name@)) + (" WHERE "@ + join_and(ps)) =~= "DELETE FROM "@
            + quoted(table.name@) + " WHERE "@ + join_and(ps));
    }
}

/// A `NotIn` with no values constrains nothing: wherever the filter
/// translates, the conjunct at its position is the true `1 = 1`.
pub proof fn law_empty_not_in_is_no_constraint(
    table: TableDef,
    d: Dialect,
    filter: GenericFilter,
    i: int,
)
    requires
        0 <= i < filter.where_clauses@.len(),
        filter.where_clauses@[i].1 matches GenericClause::NotIn(vs) && vs@.len() == 0,
    ensures
        delete_spec(table.name@, column_names(table.columns@), d, filter.where_clauses@) matches Ok(
            (sql, _),
        ) ==> exists|ps: Seq<Seq<char>>|
            ps.len() == filter.where_clauses@.len() && ps[i] == "1 = 1"@ && sql == "DELETE FROM "@
                + quoted(table.name@) + " WHERE "@ + join_and(ps),
{
    let cols = column_names(table.columns@);
    let es = filter.where_clauses@;
    lemma_fixed_conjuncts(d, cols, es);
    assert(fixed_conjunct(es[i].1) is Some);
    if let Ok((ps, _)) = where_parts(d, cols, es) {
        assert(ps.len() == es.len() && ps[i] == "1 = 1"@);
        assert(("DELETE FROM "@ + quoted(table.name@)) + (" WHERE "@ + join_and(ps)) =~= "DELETE FROM "@
            + quoted(table.name@) + " WHERE "@ + join_and(ps));
    }
}

} // verus!
