//! The reference store: which relation holds the reference digests, the
//! statements sent to it, and what its answers mean.

use vstd::prelude::*;
use vstd::string::StringExecFns;

verus! {

#[verifier::external_type_specification]
#[verifier::external_body]
pub struct ExConnection(rusqlite::Connection);

#[verifier::external_type_specification]
#[verifier::external_body]
pub struct ExStatement<'conn>(rusqlite::Statement<'conn>);

#[verifier::external_type_specification]
#[verifier::external_body]
pub struct ExStoreFailure(rusqlite::Error);

/// The relations that may hold the reference digests, in order of
/// preference.
#[derive(Debug, Clone, Copy, PartialEq, Eq, Structural)]
pub enum Relation {
    /// The table `METADATA`.
    Preferred,
    /// The table or view `FILE`.
    Fallback,
}

/// Why the store could not be used.
#[derive(Debug)]
pub enum StoreError {
    /// Neither relation exists.
    NoReferenceRelation,
    /// The store refused a statement.
    Query(rusqlite::Error),
}

/// Where the search for a relation stands after one probe.
#[derive(Debug)]
pub enum Selection {
    /// The probed relation exists and is the one to query.
    Chosen(Relation),
    /// The probed relation is absent and another one is left to probe.
    TryNext,
    /// The search is over without a relation.
    Failed(StoreError),
}

/// A lookup statement prepared on the store. It is made by `open_lookup`
/// alone, so that the statement it holds is always the one that looks a
/// pair of digests up in one of the two relations.
pub struct Lookup<'conn> {
    stmt: rusqlite::Statement<'conn>,
}

/// The name of a relation.
pub open spec fn relation_name(relation: Relation) -> Seq<char> {
    match relation {
        Relation::Preferred => "METADATA"@,
        Relation::Fallback => "FILE"@,
    }
}

/// The statement that asks whether a relation exists.
pub open spec fn probe_text(relation: Relation) -> Seq<char> {
    match relation {
        Relation::Preferred =>
            "SELECT EXISTS(SELECT 1 FROM sqlite_master WHERE type='table' AND name='METADATA')"@,
        Relation::Fallback =>
            "SELECT EXISTS(SELECT 1 FROM sqlite_master WHERE (type='table' OR type='view') AND name='FILE')"@,
    }
}

/// The statement that asks whether the index with the name given as its
/// parameter exists.
pub open spec fn index_probe_text() -> Seq<char> {
    "SELECT EXISTS(SELECT 1 FROM sqlite_master WHERE type='index' AND name=?)"@
}

/// The statement that asks whether a relation holds a row whose `sha1`
/// equals the first parameter or whose `md5` equals the second.
pub open spec fn lookup_text(name: Seq<char>) -> Seq<char> {
    "SELECT EXISTS(SELECT 1 FROM "@ + name + " WHERE sha1 = ? OR md5 = ?)"@
}

/// The name of the index on one digest column of a relation.
pub open spec fn index_name_text(table: Seq<char>, column: Seq<char>) -> Seq<char> {
    table + "_"@ + column + "_idx"@
}

/// The statement that creates the index on one digest column of a relation
/// unless it is there already.
pub open spec fn create_index_text(table: Seq<char>, column: Seq<char>) -> Seq<char> {
    "CREATE INDEX IF NOT EXISTS "@ + index_name_text(table, column) + " ON "@ + table + " ("@
        + column + ")"@
}

/// Whether `sql` is the statement that looks digests up in one of the two
/// relations.
pub open spec fn is_lookup_statement(sql: Seq<char>) -> bool {
    sql == lookup_text(relation_name(Relation::Preferred)) || sql == lookup_text(
        relation_name(Relation::Fallback),
    )
}

/// Whether `sql` is one of the statements that ask whether something
/// exists in the store: a relation, or an index by its name.
pub open spec fn is_probe_statement(sql: Seq<char>) -> bool {
    sql == probe_text(Relation::Preferred) || sql == probe_text(Relation::Fallback) || sql
        == index_probe_text()
}

/// Whether `sql` is a statement that creates the index on a digest column
/// of some relation.
pub open spec fn is_index_statement(sql: Seq<char>) -> bool {
    exists|table: Seq<char>, column: Seq<char>|
        sql == #[trigger] create_index_text(table, column) && (column == "sha1"@ || column
            == "md5"@)
}

/// The statements that create the missing indexes: `sha1` before `md5`.
pub open spec fn missing_index_texts(
    table: Seq<char>,
    sha1_indexed: bool,
    md5_indexed: bool,
) -> Seq<Seq<char>> {
    let first = if sha1_indexed {
        Seq::<Seq<char>>::empty()
    } else {
        seq![create_index_text(table, "sha1"@)]
    };
    if md5_indexed {
        first
    } else {
        first.push(create_index_text(table, "md5"@))
    }
}

/// What the answer to the probe for `candidate` means: a relation that is
/// there is chosen; an absent preferred relation leaves the fallback to
/// probe; an absent fallback ends the search; a refusal ends it too.
pub open spec fn selection_after(
    candidate: Relation,
    answer: Result<bool, rusqlite::Error>,
) -> Selection {
    match answer {
        Ok(true) => Selection::Chosen(candidate),
        Ok(false) => match candidate {
            Relation::Preferred => Selection::TryNext,
            Relation::Fallback => Selection::Failed(StoreError::NoReferenceRelation),
        },
        Err(e) => Selection::Failed(StoreError::Query(e)),
    }
}

/// Calls `Connection::query_row` with the given text parameters, bound
/// through `params_from_iter`, and reads column 0 of the first row as a
/// `bool`. Only the probes of this module are sent through it: each
/// selects `EXISTS(..)`, one integer in one row. Nothing is claimed of the
/// answer: it depends on what the store holds.
#[verifier::external_body]
pub(crate) fn query_flag(conn: &rusqlite::Connection, sql: &str, params: &Vec<String>) -> (r:
    Result<bool, rusqlite::Error>)
    requires
        is_probe_statement(sql@),
{
    conn.query_row(sql, rusqlite::params_from_iter(params.iter()), |row| row.get(0))
}

/// Calls `Connection::execute` without parameters. Only statements that
/// create an index are sent through it; such a statement holds no query.
/// Nothing is claimed of the answer.
#[verifier::external_body]
pub(crate) fn execute(conn: &rusqlite::Connection, sql: &str) -> (r: Result<
    usize,
    rusqlite::Error,
>)
    requires
        is_index_statement(sql@),
{
    conn.execute(sql, [])
}

/// Calls `Connection::prepare` and keeps the statement as a `Lookup`. Only
/// the lookup statement of one of the two relations is prepared through
/// it. Nothing is claimed of the answer.
#[verifier::external_body]
pub(crate) fn prepare<'conn>(conn: &'conn rusqlite::Connection, sql: &str) -> (r: Result<
    Lookup<'conn>,
    rusqlite::Error,
>)
    requires
        is_lookup_statement(sql@),
{
    match conn.prepare(sql) {
        Ok(stmt) => Ok(Lookup { stmt }),
        Err(e) => Err(e),
    }
}

/// Calls `Statement::query_row` on the statement of `lookup` with the two
/// digests as text parameters, in this order, and reads column 0 of the
/// first row as a `bool`. The statement selects `EXISTS(..)`, one integer
/// in one row. Nothing is claimed of the answer.
#[verifier::external_body]
pub(crate) fn query_pair(lookup: &mut Lookup<'_>, primary: &str, secondary: &str) -> (r: Result<
    bool,
    rusqlite::Error,
>) {
    lookup.stmt.query_row([primary, secondary], |row| row.get::<_, bool>(0))
}

impl Relation {
    /// The name of the relation.
    pub fn name(&self) -> (r: &'static str)
        ensures
            r@ == relation_name(*self),
    {
        match self {
            Relation::Preferred => "METADATA",
            Relation::Fallback => "FILE",
        }
    }

    /// The statement that asks whether the relation exists.
    pub fn probe_statement(&self) -> (r: &'static str)
        ensures
            r@ == probe_text(*self),
    {
        match self {
            Relation::Preferred =>
                "SELECT EXISTS(SELECT 1 FROM sqlite_master WHERE type='table' AND name='METADATA')",
            Relation::Fallback =>
                "SELECT EXISTS(SELECT 1 FROM sqlite_master WHERE (type='table' OR type='view') AND name='FILE')",
        }
    }
}

/// The statement that asks whether an index exists, by its name.
pub fn index_probe_statement() -> (r: &'static str)
    ensures
        r@ == index_probe_text(),
{
    "SELECT EXISTS(SELECT 1 FROM sqlite_master WHERE type='index' AND name=?)"
}

/// Builds the statement that looks a pair of digests up in the relation
/// called `name`.
pub fn lookup_query(name: &str) -> (r: String)
    ensures
        r@ == lookup_text(name@),
{
    let mut query = String::from_str("SELECT EXISTS(SELECT 1 FROM ");
    query.append(name);
    query.append(" WHERE sha1 = ? OR md5 = ?)");
    query
}

/// Builds the name of the index on `column` of `table`.
pub fn index_name(table: &str, column: &str) -> (r: String)
    ensures
        r@ == index_name_text(table@, column@),
{
    let mut name = String::from_str(table);
    name.append("_");
    name.append(column);
    name.append("_idx");
    name
}

/// Builds the statement that creates the index on `column` of `table`.
pub fn create_index_statement(table: &str, column: &str) -> (r: String)
    ensures
        r@ == create_index_text(table@, column@),
{
    let name = index_name(table, column);
    let mut statement = String::from_str("CREATE INDEX IF NOT EXISTS ");
    statement.append(name.as_str());
    statement.append(" ON ");
    statement.append(table);
    statement.append(" (");
    statement.append(column);
    statement.append(")");
    statement
}

/// Lists the statements to run once it is known which indexes exist.
pub fn missing_index_statements(table: &str, sha1_indexed: bool, md5_indexed: bool) -> (r: Vec<
    String,
>)
    ensures
        r@.len() == missing_index_texts(table@, sha1_indexed, md5_indexed).len(),
        forall|i: int|
            0 <= i < r@.len() ==> (#[trigger] r@[i])@ == missing_index_texts(
                table@,
                sha1_indexed,
                md5_indexed,
            )[i],
{
    let mut statements: Vec<String> = Vec::new();
    if !sha1_indexed {
        statements.push(create_index_statement(table, "sha1"));
    }
    if !md5_indexed {
        statements.push(create_index_statement(table, "md5"));
    }
    statements
}

/// Moves the search for a relation on by the answer to one probe.
pub fn after_probe(candidate: Relation, answer: Result<bool, rusqlite::Error>) -> (s: Selection)
    ensures
        s == selection_after(candidate, answer),
{
    match answer {
        Ok(present) => {
            if present {
                Selection::Chosen(candidate)
            } else {
                match candidate {
                    Relation::Preferred => Selection::TryNext,
                    Relation::Fallback => Selection::Failed(StoreError::NoReferenceRelation),
                }
            }
        },
        Err(e) => Selection::Failed(StoreError::Query(e)),
    }
}

/// The name of `relation` and the statement that looks digests up in it.
pub fn selected(relation: Relation) -> (r: (String, String))
    ensures
        r.0@ == relation_name(relation),
        r.1@ == lookup_text(relation_name(relation)),
{
    (String::from_str(relation.name()), lookup_query(relation.name()))
}

/// What the outcome of one statement that creates an index means: the
/// work goes on after a success and ends with the store's refusal.
pub fn after_statement(outcome: Result<usize, rusqlite::Error>) -> (r: Result<(), StoreError>)
    ensures
        match outcome {
            Ok(_) => r is Ok,
            Err(e) => r == Err::<(), StoreError>(StoreError::Query(e)),
        },
{
    match outcome {
        Ok(_) => Ok(()),
        Err(e) => Err(StoreError::Query(e)),
    }
}

/// Finds the relation to query and builds its lookup statement. The
/// preferred relation is probed first, the fallback only where the
/// preferred one is absent. Which of them the store holds is not known
/// here: a success gives one of the two, with its name and the statement
/// that looks digests up in it.
pub fn determine_table_and_query(conn: &rusqlite::Connection) -> (r: Result<
    (Relation, String, String),
    StoreError,
>)
    ensures
        r matches Ok(found) ==> {
            &&& found.1@ == relation_name(found.0)
            &&& found.2@ == lookup_text(relation_name(found.0))
        },
{
    let none: Vec<String> = Vec::new();
    let first = query_flag(conn, Relation::Preferred.probe_statement(), &none);
    let relation = match after_probe(Relation::Preferred, first) {
        Selection::Chosen(relation) => relation,
        Selection::Failed(e) => {
            return Err(e);
        },
        Selection::TryNext => {
            let second = query_flag(conn, Relation::Fallback.probe_statement(), &none);
            match after_probe(Relation::Fallback, second) {
                Selection::Chosen(relation) => relation,
                Selection::Failed(e) => {
                    return Err(e);
                },
                Selection::TryNext => {
                    return Err(StoreError::NoReferenceRelation);
                },
            }
        },
    };
    let (table, query) = selected(relation);
    Ok((relation, table, query))
}

/// Prepares the statement that looks digests up in `relation`. A failure
/// is always a refusal by the store.
pub fn open_lookup<'conn>(conn: &'conn rusqlite::Connection, relation: Relation) -> (r: Result<
    Lookup<'conn>,
    StoreError,
>)
    ensures
        r matches Err(e) ==> e is Query,
{
    let query = lookup_query(relation.name());
    match prepare(conn, query.as_str()) {
        Ok(lookup) => Ok(lookup),
        Err(e) => Err(StoreError::Query(e)),
    }
}

/// Creates the indexes on the `sha1` and `md5` columns of `table` that the
/// store does not have yet. Both are probed before either is created; the
/// first refusal ends the work. Whether the store refuses is not known
/// here; a failure is always such a refusal, never a missing relation.
pub fn ensure_indexes(conn: &rusqlite::Connection, table: &str) -> (r: Result<(), StoreError>)
    ensures
        r matches Err(e) ==> e is Query,
{
    let probe = index_probe_statement();
    let mut sha1_name: Vec<String> = Vec::new();
    sha1_name.push(index_name(table, "sha1"));
    let sha1_indexed = match query_flag(conn, probe, &sha1_name) {
        Ok(present) => present,
        Err(e) => {
            return Err(StoreError::Query(e));
        },
    };
    let mut md5_name: Vec<String> = Vec::new();
    md5_name.push(index_name(table, "md5"));
    let md5_indexed = match query_flag(conn, probe, &md5_name) {
        Ok(present) => present,
        Err(e) => {
            return Err(StoreError::Query(e));
        },
    };
    let statements = missing_index_statements(table, sha1_indexed, md5_indexed);
    assert forall|j: int| 0 <= j < statements@.len() implies is_index_statement(
        #[trigger] statements@[j]@,
    ) by {
        let text = missing_index_texts(table@, sha1_indexed, md5_indexed)[j];
        assert(text == create_index_text(table@, "sha1"@) || text == create_index_text(
            table@,
            "md5"@,
        ));
    }
    let mut i: usize = 0;
    while i < statements.len()
        invariant
            0 <= i <= statements@.len(),
            forall|j: int|
                0 <= j < statements@.len() ==> is_index_statement(#[trigger] statements@[j]@),
        decreases statements@.len() - i,
    {
        match after_statement(execute(conn, statements[i].as_str())) {
            Ok(_) => {},
            Err(e) => {
                return Err(e);
            },
        }
        i += 1;
    }
    Ok(())
}

} // verus!
