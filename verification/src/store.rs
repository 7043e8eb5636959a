//! The durable schedule of pending deletions.
//!
//! The schedule is one table of an SQLite database, reached through one
//! connection. What the database answers is not known in advance, so every
//! record that a listing hands back is checked against the clock once more:
//! nothing is ever reported due before its time.

use crate::decode::ScheduleRequest;
use vstd::prelude::*;

verus! {

/// A connection to an SQLite database.
#[verifier::external_type_specification]
#[verifier::external_body]
pub struct ExConnection(rusqlite::Connection);

/// What the database layer reports when a call fails.
#[verifier::external_type_specification]
#[verifier::external_body]
pub struct ExSqlError(rusqlite::Error);

/// Statement that creates the table of the schedule when it is missing.
pub const CREATE_TABLE: &'static str =
    "CREATE TABLE IF NOT EXISTS sweeper (
            id INTEGER PRIMARY KEY,
            path TEXT NOT NULL,
            name TEXT NOT NULL,
            expire_at timestamp NOT NULL)";

/// Statement that adds one record.
pub const INSERT_RECORD: &'static str =
    "INSERT INTO sweeper (path, name, expire_at) VALUES (?1, ?2, ?3)";

/// Statement that reads the records due at a point in time.
pub const SELECT_DUE: &'static str =
    "SELECT id, path, name, expire_at FROM sweeper WHERE expire_at <= ?1";

/// Statement that removes one record.
pub const DELETE_RECORD: &'static str = "DELETE FROM sweeper WHERE id = ?1";

/// A scheduled deletion as the table holds it.
#[derive(Debug, PartialEq, Eq)]
pub struct ScheduleRecord {
    /// Identifier that the table gave the record.
    pub id: i64,
    /// Absolute path of the file.
    pub path: String,
    /// Name of the attribute that scheduled the deletion.
    pub attribute_name: String,
    /// Unix time at or after which the file is due.
    pub expire_at: i32,
}

/// What a `ScheduleRecord` holds, as plain values.
pub struct RecordView {
    pub id: int,
    pub path: Seq<char>,
    pub attribute_name: Seq<char>,
    pub expire_at: int,
}

impl View for ScheduleRecord {
    type V = RecordView;

    open spec fn view(&self) -> RecordView {
        RecordView {
            id: self.id as int,
            path: self.path@,
            attribute_name: self.attribute_name@,
            expire_at: self.expire_at as int,
        }
    }
}

impl Clone for ScheduleRecord {
    fn clone(&self) -> (copy: Self)
        ensures
            copy@ == self@,
    {
        ScheduleRecord {
            id: self.id,
            path: self.path.clone(),
            attribute_name: self.attribute_name.clone(),
            expire_at: self.expire_at,
        }
    }
}

/// The records of a vector, as plain values.
pub open spec fn record_views(records: Seq<ScheduleRecord>) -> Seq<RecordView> {
    records.map_values(|record: ScheduleRecord| record@)
}

/// True when a record is due at the time `now`.
pub open spec fn is_due(record: RecordView, now: int) -> bool {
    record.expire_at <= now
}

/// The records among `records` that are due at the time `now`, in their order.
pub open spec fn due_among(records: Seq<RecordView>, now: int) -> Seq<RecordView> {
    records.filter(|record: RecordView| is_due(record, now))
}

/// A failed call on the schedule, with what the database layer said of it.
#[derive(Debug, PartialEq, Eq)]
pub struct StoreError {
    pub message: String,
}

/// A value that a statement takes for one of its parameters.
#[derive(Debug, PartialEq, Eq)]
pub enum SqlParam {
    /// An integer.
    Integer(i64),
    /// A string.
    Text(String),
}

/// A `SqlParam` as plain values.
pub enum ParamView {
    Integer(int),
    Text(Seq<char>),
}

impl View for SqlParam {
    type V = ParamView;

    open spec fn view(&self) -> ParamView {
        match *self {
            SqlParam::Integer(n) => ParamView::Integer(n as int),
            SqlParam::Text(text) => ParamView::Text(text@),
        }
    }
}

/// The parameters of a vector, as plain values.
pub open spec fn param_views(params: Seq<SqlParam>) -> Seq<ParamView> {
    params.map_values(|param: SqlParam| param@)
}

/// The statement that creates the table of the schedule, with its
/// parameters: it takes none.
pub fn setup_statement() -> (s: (&'static str, Vec<SqlParam>))
    ensures
        s.0@ == CREATE_TABLE@,
        s.1@.len() == 0,
{
    (CREATE_TABLE, Vec::new())
}

/// The statement that adds a record for `request`, with its parameters: the
/// path, the name of the attribute and the time of expiry, in this order.
pub fn insert_statement(request: &ScheduleRequest) -> (s: (&'static str, Vec<SqlParam>))
    ensures
        s.0@ == INSERT_RECORD@,
        param_views(s.1@) == seq![
            ParamView::Text(request@.path),
            ParamView::Text(request@.attribute_name),
            ParamView::Integer(request@.expire_at),
        ],
{
    let mut params: Vec<SqlParam> = Vec::new();
    params.push(SqlParam::Text(request.path.clone()));
    params.push(SqlParam::Text(request.attribute_name.clone()));
    params.push(SqlParam::Integer(request.expire_at as i64));
    assert(param_views(params@) =~= seq![
        ParamView::Text(request@.path),
        ParamView::Text(request@.attribute_name),
        ParamView::Integer(request@.expire_at),
    ]);
    (INSERT_RECORD, params)
}

/// The statement that reads the records due at the time `now`, with its
/// parameter: that time.
pub fn due_statement(now: i64) -> (s: (&'static str, Vec<SqlParam>))
    ensures
        s.0@ == SELECT_DUE@,
        param_views(s.1@) == seq![ParamView::Integer(now as int)],
{
    let mut params: Vec<SqlParam> = Vec::new();
    params.push(SqlParam::Integer(now));
    assert(param_views(params@) =~= seq![ParamView::Integer(now as int)]);
    (SELECT_DUE, params)
}

/// The statement that removes the record `id`, with its parameter: that
/// identifier.
pub fn remove_statement(id: i64) -> (s: (&'static str, Vec<SqlParam>))
    ensures
        s.0@ == DELETE_RECORD@,
        param_views(s.1@) == seq![ParamView::Integer(id as int)],
{
    let mut params: Vec<SqlParam> = Vec::new();
    params.push(SqlParam::Integer(id));
    assert(param_views(params@) =~= seq![ParamView::Integer(id as int)]);
    (DELETE_RECORD, params)
}

/// `rusqlite::Connection::execute` on the statement `sql`. Each of `params`
/// is handed over as the `rusqlite::types::Value` of its kind, in their
/// order, by `rusqlite::params_from_iter`. Nothing is claimed of the answer.
#[verifier::external_body]
fn execute(conn: &rusqlite::Connection, sql: &str, params: Vec<SqlParam>) -> Result<
    usize,
    rusqlite::Error,
> {
    let values = params.into_iter().map(|param| match param {
        SqlParam::Integer(n) => rusqlite::types::Value::Integer(n),
        SqlParam::Text(text) => rusqlite::types::Value::Text(text),
    });
    conn.execute(sql, rusqlite::params_from_iter(values))
}

/// `rusqlite::Connection::last_insert_rowid`. Nothing is claimed of the
/// answer.
#[verifier::external_body]
fn last_insert_rowid(conn: &rusqlite::Connection) -> i64 {
    conn.last_insert_rowid()
}

/// `rusqlite::Connection::prepare` on the statement `sql`, then
/// `rusqlite::Statement::query_map`. Each of `params` is handed over as the
/// `rusqlite::types::Value` of its kind, in their order; each row is read
/// with `rusqlite::Row::get`, column by column, into a record. Nothing is
/// claimed of the answer.
#[verifier::external_body]
fn query_records(conn: &rusqlite::Connection, sql: &str, params: Vec<SqlParam>) -> Result<
    Vec<ScheduleRecord>,
    rusqlite::Error,
> {
    let values = params.into_iter().map(|param| match param {
        SqlParam::Integer(n) => rusqlite::types::Value::Integer(n),
        SqlParam::Text(text) => rusqlite::types::Value::Text(text),
    });
    let mut statement = conn.prepare(sql)?;
    let rows = statement.query_map(rusqlite::params_from_iter(values), |row| {
        let (id, path, expire_at) = (row.get(0)?, row.get(1)?, row.get(3)?);
        Ok(ScheduleRecord { id, path, attribute_name: row.get(2)?, expire_at })
    })?;
    rows.collect()
}

/// The text of `rusqlite::Error`, as its `Display` gives it.
#[verifier::external_body]
fn describe(error: &rusqlite::Error) -> String {
    format!("{}", error)
}

/// Keeps the records that are due at the time `now`, in their order.
pub fn due_only(records: &Vec<ScheduleRecord>, now: i64) -> (due: Vec<ScheduleRecord>)
    ensures
        record_views(due@) == due_among(record_views(records@), now as int),
{
    let ghost pred = |record: RecordView| is_due(record, now as int);
    let mut due: Vec<ScheduleRecord> = Vec::new();
    let mut i: usize = 0;
    proof {
        assert(records@.take(0) =~= Seq::<ScheduleRecord>::empty());
        assert(record_views(records@.take(0)) =~= Seq::<RecordView>::empty());
        reveal(Seq::filter);
        assert(record_views(due@) =~= Seq::<RecordView>::empty());
    }
    while i < records.len()
        invariant
            0 <= i <= records@.len(),
            pred == |record: RecordView| is_due(record, now as int),
            record_views(due@) == record_views(records@.take(i as int)).filter(pred),
        decreases records@.len() - i,
    {
        let ghost before = record_views(records@.take(i as int));
        let ghost kept = record_views(due@);
        proof {
            assert(records@.take(i + 1) =~= records@.take(i as int).push(records@[i as int]));
            assert(record_views(records@.take(i + 1)) =~= before.push(records@[i as int]@));
            before.lemma_filter_push(records@[i as int]@, pred);
        }
        if (records[i].expire_at as i64) <= now {
            let copy = records[i].clone();
            due.push(copy);
            proof {
                assert(record_views(due@) =~= kept.push(records@[i as int]@));
            }
        }
        i = i + 1;
    }
    proof {
        assert(records@.take(records@.len() as int) =~= records@);
    }
    due
}

/// What a call on the schedule returns for what the database layer answered:
/// the answer itself when the call went well, and else the failure with the
/// text that the layer gave for it.
pub fn answered<T>(answer: Result<T, String>) -> (r: Result<T, StoreError>)
    ensures
        match answer {
            Ok(value) => r == Ok::<T, StoreError>(value),
            Err(message) => r == Err::<T, StoreError>(StoreError { message }),
        },
{
    match answer {
        Ok(value) => Ok(value),
        Err(message) => Err(StoreError { message }),
    }
}

/// What a listing for the time `now` returns for what the database layer
/// answered: of the rows that it handed back, those that are due at `now`, in
/// their order; the failure with its text when the query failed.
pub fn listed(answer: Result<Vec<ScheduleRecord>, String>, now: i64) -> (r: Result<
    Vec<ScheduleRecord>,
    StoreError,
>)
    ensures
        match answer {
            Ok(rows) => r matches Ok(due) && record_views(due@) == due_among(
                record_views(rows@),
                now as int,
            ),
            Err(message) => r == Err::<Vec<ScheduleRecord>, StoreError>(StoreError { message }),
        },
{
    match answer {
        Ok(rows) => Ok(due_only(&rows, now)),
        Err(message) => Err(StoreError { message }),
    }
}

/// The schedule of pending deletions, on one database connection.
pub struct ScheduleStore {
    conn: rusqlite::Connection,
}

impl ScheduleStore {
    /// A schedule on the database behind `conn`.
    pub fn new(conn: rusqlite::Connection) -> (store: Self)
        ensures
            store.connection() == conn,
    {
        ScheduleStore { conn }
    }

    /// Creates the table of the schedule unless the database has it already.
    /// `setup_statement` says what the database is asked. Whether that went
    /// well is for the database to say; `answered` says what is returned for
    /// each of its answers.
    pub fn setup_db(&self) -> Result<(), StoreError> {
        let (sql, params) = setup_statement();
        let answer = match execute(&self.conn, sql, params) {
            Ok(_) => Ok(()),
            Err(error) => Err(describe(&error)),
        };
        answered(answer)
    }

    /// Adds a record for `request` and returns the identifier that the table
    /// gave it. `insert_statement` says what the database is asked. Whether
    /// that went well is for the database to say; `answered` says what is
    /// returned for each of its answers.
    pub fn insert(&self, request: &ScheduleRequest) -> Result<i64, StoreError> {
        let (sql, params) = insert_statement(request);
        let answer = match execute(&self.conn, sql, params) {
            Ok(_) => Ok(last_insert_rowid(&self.conn)),
            Err(error) => Err(describe(&error)),
        };
        answered(answer)
    }

    /// Lists the records that are due at the time `now`. Whatever the
    /// database answers, each record of the list is due: its time of expiry
    /// is at or before `now`. `due_statement` says what the database is
    /// asked, and `listed` what is returned for each of its answers.
    pub fn list_due(&self, now: i64) -> (r: Result<Vec<ScheduleRecord>, StoreError>)
        ensures
            r matches Ok(records) ==> forall|i: int|
                0 <= i < records@.len() ==> is_due(#[trigger] records@[i]@, now as int),
    {
        let (sql, params) = due_statement(now);
        let answer = match query_records(&self.conn, sql, params) {
            Ok(rows) => Ok(rows),
            Err(error) => Err(describe(&error)),
        };
        let ghost given = answer;
        let r = listed(answer, now);
        proof {
            if r is Ok {
                let due = r->Ok_0;
                let rows = given->Ok_0;
                lemma_due_among(record_views(rows@), now as int);
                assert forall|i: int| 0 <= i < due@.len() implies is_due(
                    #[trigger] due@[i]@,
                    now as int,
                ) by {
                    assert(record_views(due@)[i] == due@[i]@);
                }
            }
        }
        r
    }

    /// Removes the record with the identifier `id`. `remove_statement` says
    /// what the database is asked. Whether that went well is for the
    /// database to say; `answered` says what is returned for each of its
    /// answers.
    pub fn remove(&self, id: i64) -> Result<(), StoreError> {
        let (sql, params) = remove_statement(id);
        let answer = match execute(&self.conn, sql, params) {
            Ok(_) => Ok(()),
            Err(error) => Err(describe(&error)),
        };
        answered(answer)
    }

    /// The connection that the schedule is reached through.
    pub closed spec fn connection(&self) -> rusqlite::Connection {
        self.conn
    }
}

/// The due records are exactly the records that are due: each of them is due
/// and was listed, and each listed record that is due is among them.
pub proof fn lemma_due_among(records: Seq<RecordView>, now: int)
    ensures
        forall|i: int|
            0 <= i < due_among(records, now).len() ==> is_due(
                #[trigger] due_among(records, now)[i],
                now,
            ) && records.contains(due_among(records, now)[i]),
        forall|i: int|
            0 <= i < records.len() && is_due(#[trigger] records[i], now) ==> due_among(
                records,
                now,
            ).contains(records[i]),
        due_among(records, now).len() <= records.len(),
{
    let pred = |record: RecordView| is_due(record, now);
    let due = due_among(records, now);
    assert forall|i: int| 0 <= i < due.len() implies is_due(#[trigger] due[i], now)
        && records.contains(due[i]) by {
        records.lemma_filter_pred(pred, i);
        assert(due.contains(due[i]));
        records.lemma_filter_contains_rev(pred, due[i]);
    }
    assert forall|i: int|
        0 <= i < records.len() && is_due(#[trigger] records[i], now) implies due.contains(
        records[i],
    ) by {
        records.lemma_filter_contains(pred, i);
    }
    records.lemma_filter_len(pred);
}

} // verus!
