//! The calls into SQLite.

use vstd::prelude::*;

verus! {

/// `rusqlite::Connection`, carried through as it is.
#[verifier::external_type_specification]
#[verifier::external_body]
pub struct ExConnection(rusqlite::Connection);

/// One row of a query: its text columns, then its integer columns.
pub struct SqlRow {
    pub texts: Vec<String>,
    pub ints: Vec<i64>,
}

/// `rusqlite::Connection::execute`, with the texts bound to the first
/// parameters of the statement and the integers to those after them. The
/// result is the number of rows changed, or `None` where the call returned
/// an error. Nothing is claimed of what the database does.
#[verifier::external_body]
pub(crate) fn sql_execute(
    conn: &mut rusqlite::Connection,
    sql: &str,
    texts: &Vec<String>,
    ints: &Vec<i64>,
) -> (changed: Option<usize>) {
    let values = texts.iter().cloned().map(rusqlite::types::Value::from).chain(
        ints.iter().copied().map(rusqlite::types::Value::from),
    );
    conn.execute(sql, rusqlite::params_from_iter(values)).ok()
}

/// `rusqlite::Connection::prepare` and `Statement::query_map`: the rows of a
/// query, of each the columns before `text_columns` read as text and those
/// from there to `columns` read as integers, or `None` where a call returned
/// an error. Nothing is claimed of what the database returns.
#[verifier::external_body]
pub(crate) fn sql_query(
    conn: &mut rusqlite::Connection,
    sql: &str,
    text_columns: usize,
    columns: usize,
) -> (rows: Option<Vec<SqlRow>>) {
    let mut statement = conn.prepare(sql).ok()?;
    let rows = statement.query_map(
        (),
        |row|
            Ok(
                SqlRow {
                    texts: (0..text_columns).map(|i| row.get(i)).collect::<Result<_, _>>()?,
                    ints: (text_columns..columns).map(|i| row.get(i)).collect::<Result<_, _>>()?,
                },
            ),
    ).ok()?;
    let rows: Option<Vec<SqlRow>> = rows.collect::<Result<_, _>>().ok();
    rows
}

} // verus!
