//! The persistence store: one append-only table of calculation records.
//!
//! Rows live in a SQLite database behind a `rusqlite::Connection`. The
//! connection is opaque to the proofs; what the table holds is modelled by
//! `table_rows`, and every access goes through a small trusted wrapper whose
//! contract states what its single SQL statement does to that model.

use vstd::prelude::*;

verus! {

/// One calculation to persist: the two inputs and the four results, each as
/// its rendered decimal text (the division field may hold the sentinel).
pub struct RecordFields {
    pub num1: String,
    pub num2: String,
    pub addition: String,
    pub subtraction: String,
    pub multiplication: String,
    pub division: String,
}

/// The mathematical value of one stored row.
pub ghost struct RecordView {
    pub id: int,
    pub num1: Seq<char>,
    pub num2: Seq<char>,
    pub addition: Seq<char>,
    pub subtraction: Seq<char>,
    pub multiplication: Seq<char>,
    pub division: Seq<char>,
}

/// One stored row: the identifier the store assigned, and the fields.
pub struct CalculationRecord {
    pub id: i64,
    pub fields: RecordFields,
}

impl RecordFields {
    /// The row these fields make once the store assigns them `id`.
    pub open spec fn with_id(self, id: int) -> RecordView {
        RecordView {
            id,
            num1: self.num1@,
            num2: self.num2@,
            addition: self.addition@,
            subtraction: self.subtraction@,
            multiplication: self.multiplication@,
            division: self.division@,
        }
    }
}

impl View for CalculationRecord {
    type V = RecordView;

    open spec fn view(&self) -> RecordView {
        self.fields.with_id(self.id as int)
    }
}

/// The values of a sequence of stored rows.
pub open spec fn views_of(records: Seq<CalculationRecord>) -> Seq<RecordView> {
    records.map_values(|rec: CalculationRecord| rec@)
}

/// Whether row identifiers strictly increase along the sequence.
pub open spec fn ids_sorted(rows: Seq<RecordView>) -> bool {
    forall|i: int, j: int| 0 <= i < j < rows.len() ==> rows[i].id < rows[j].id
}

/// Whether no row identifier has reached the largest representable one.
pub open spec fn ids_below_max(rows: Seq<RecordView>) -> bool {
    forall|i: int| 0 <= i < rows.len() ==> rows[i].id < i64::MAX
}

/// rusqlite's database connection, held opaquely: the store reads and writes
/// it only through the trusted wrappers below.
#[verifier::external_type_specification]
#[verifier::external_body]
pub struct ExConnection(rusqlite::Connection);

/// rusqlite's error type; the store maps every value of it to `StorageError`.
#[verifier::external_type_specification]
#[verifier::external_body]
pub struct ExRusqliteError(rusqlite::Error);

/// The rows of the `calculations` table behind a connection, in ascending
/// `id` order; the empty sequence where the table is absent. `id` is the
/// table's INTEGER PRIMARY KEY, so identifiers are unique and this order is
/// strict.
pub uninterp spec fn table_rows(conn: rusqlite::Connection) -> Seq<RecordView>;

/// Whether the `calculations` table exists behind a connection.
pub uninterp spec fn table_exists(conn: rusqlite::Connection) -> bool;

/// Relies on rusqlite::Connection::open: opens the database at `path`,
/// creating the file if it is absent. What the medium already holds decides
/// the rows, so nothing is promised of them.
#[verifier::external_body]
fn open_connection(path: &str) -> (r: Result<rusqlite::Connection, rusqlite::Error>) {
    rusqlite::Connection::open(path)
}

/// Relies on rusqlite::Connection::execute running CREATE TABLE IF NOT
/// EXISTS: an existing `calculations` table and its rows are kept, an absent
/// one is created empty, and nothing changes on failure. `id` is the INTEGER
/// PRIMARY KEY, so the rows, read in id order, are strictly sorted.
#[verifier::external_body]
fn create_table(conn: &mut rusqlite::Connection) -> (r: Result<(), rusqlite::Error>)
    ensures
        r is Ok ==> table_exists(*final(conn)) && table_rows(*final(conn)) == table_rows(
            *old(conn),
        ) && ids_sorted(table_rows(*final(conn))),
        r is Err ==> table_exists(*final(conn)) == table_exists(*old(conn)) && table_rows(
            *final(conn),
        ) == table_rows(*old(conn)),
{
    let sql = "CREATE TABLE IF NOT EXISTS calculations (id INTEGER PRIMARY KEY, \
        num1 TEXT NOT NULL, num2 TEXT NOT NULL, addition TEXT NOT NULL, \
        subtraction TEXT NOT NULL, multiplication TEXT NOT NULL, division TEXT NOT NULL)";
    conn.execute(sql, []).map(|_| ())
}

/// Relies on rusqlite::Connection::query_row running INSERT .. RETURNING id:
/// on success exactly the given row is added and its fresh id returned. While
/// no stored id has reached i64::MAX, SQLite assigns one larger than every
/// stored id, so the new row is last in id order; in any case the id is
/// unused and the id order stays strict. On failure nothing changes.
#[verifier::external_body]
fn insert_row(conn: &mut rusqlite::Connection, f: &RecordFields) -> (r: Result<
    i64,
    rusqlite::Error,
>)
    ensures
        r is Err ==> table_exists(*final(conn)) == table_exists(*old(conn)) && table_rows(
            *final(conn),
        ) == table_rows(*old(conn)),
        r is Ok ==> table_exists(*final(conn)) && ids_sorted(table_rows(*final(conn)))
            && table_rows(*final(conn)).len() == table_rows(*old(conn)).len() + 1,
        r is Ok ==> (exists|j: int|
            0 <= j < table_rows(*final(conn)).len() && table_rows(*final(conn))[j] == f.with_id(
                r->Ok_0 as int,
            )),
        r is Ok ==> (forall|i: int|
            0 <= i < table_rows(*old(conn)).len() ==> table_rows(*old(conn))[i].id != r->Ok_0
                as int),
        r is Ok && ids_below_max(table_rows(*old(conn))) ==> table_rows(*final(conn)) == table_rows(
            *old(conn),
        ).push(f.with_id(r->Ok_0 as int)) && (forall|i: int|
            0 <= i < table_rows(*old(conn)).len() ==> table_rows(*old(conn))[i].id < r->Ok_0
                as int),
{
    conn.query_row(
        "INSERT INTO calculations (num1, num2, addition, subtraction, multiplication, division) \
            VALUES (?1, ?2, ?3, ?4, ?5, ?6) RETURNING id",
        (&f.num1, &f.num2, &f.addition, &f.subtraction, &f.multiplication, &f.division),
        |row| row.get(0),
    )
}

/// Relies on rusqlite's prepare and query_map running SELECT .. ORDER BY id
/// ASC over the table: on success, exactly the stored rows in ascending id
/// order.
#[verifier::external_body]
fn select_rows(conn: &rusqlite::Connection) -> (r: Result<Vec<CalculationRecord>, rusqlite::Error>)
    ensures
        r is Ok ==> views_of(r->Ok_0@) == table_rows(*conn),
{
    let sql = "SELECT id, num1, num2, addition, subtraction, multiplication, division \
        FROM calculations ORDER BY id ASC";
    let mut stmt = conn.prepare(sql)?;
    let iter = stmt.query_map([], |row| {
        let fields = RecordFields {
            num1: row.get(1)?, num2: row.get(2)?, addition: row.get(3)?,
            subtraction: row.get(4)?, multiplication: row.get(5)?, division: row.get(6)?,
        };
        Ok(CalculationRecord { id: row.get(0)?, fields })
    })?;
    iter.collect()
}

/// Relies on rusqlite::Connection::query_row counting over sqlite_master:
/// how many table definitions named `calculations` the database holds, which
/// is 1 where the table exists and 0 where it does not.
#[verifier::external_body]
fn count_table_defs(conn: &rusqlite::Connection) -> (r: Result<i64, rusqlite::Error>)
    ensures
        r is Ok ==> r->Ok_0 == (if table_exists(*conn) {
            1int
        } else {
            0int
        }),
{
    conn.query_row(
        "SELECT COUNT(*) FROM sqlite_master WHERE type = 'table' AND name = 'calculations'",
        [],
        |row| row.get(0),
    )
}

/// A failure of the persistence medium: the request that hit it is aborted
/// as a server fault and nothing is retried.
#[derive(Clone, Copy, Debug, PartialEq, Eq, Structural)]
pub struct StorageError;

/// The persistence store: an append-only table of calculation records with
/// store-assigned, strictly increasing identifiers.
pub struct Store {
    conn: rusqlite::Connection,
}

impl Store {
    /// The stored rows, in ascending id order.
    pub closed spec fn rows(self) -> Seq<RecordView> {
        table_rows(self.conn)
    }

    /// Whether the table definition is present.
    pub closed spec fn schema_present(self) -> bool {
        table_exists(self.conn)
    }

    /// A usable store: the table exists and the rows stand in strictly
    /// ascending id order.
    pub open spec fn wf(self) -> bool {
        self.schema_present() && ids_sorted(self.rows())
    }

    /// Opens (creating on demand) the database at `path` and makes sure the
    /// table exists. Rows already on the medium are kept.
    pub fn open(path: &str) -> (r: Result<Store, StorageError>)
        ensures
            r is Ok ==> r->Ok_0.wf(),
    {
        let conn = match open_connection(path) {
            Ok(c) => c,
            Err(_) => {
                return Err(StorageError);
            },
        };
        let mut store = Store { conn };
        match create_table(&mut store.conn) {
            Ok(_) => Ok(store),
            Err(_) => Err(StorageError),
        }
    }

    /// Creates the table if it is absent. Idempotent: the rows never change,
    /// and once the schema is present every further call keeps exactly one
    /// table definition.
    pub fn ensure_schema(&mut self) -> (r: Result<(), StorageError>)
        ensures
            final(self).rows() == old(self).rows(),
            final(self).schema_present() == old(self).schema_present() || r is Ok,
            old(self).wf() ==> final(self).wf(),
            r is Ok ==> final(self).wf(),
    {
        match create_table(&mut self.conn) {
            Ok(_) => Ok(()),
            Err(_) => Err(StorageError),
        }
    }

    /// Appends one record; the store assigns and returns its identifier. The
    /// identifier is never one already stored, and while no stored identifier
    /// has reached i64::MAX the new row goes last, above every stored one. On
    /// failure the rows are untouched.
    pub fn append(&mut self, fields: &RecordFields) -> (r: Result<i64, StorageError>)
        requires
            old(self).wf(),
        ensures
            final(self).wf(),
            r is Err ==> final(self).rows() == old(self).rows(),
            r is Ok ==> final(self).rows().len() == old(self).rows().len() + 1,
            r is Ok ==> (exists|j: int|
                0 <= j < final(self).rows().len() && final(self).rows()[j] == fields.with_id(
                    r->Ok_0 as int,
                )),
            r is Ok ==> (forall|i: int|
                0 <= i < old(self).rows().len() ==> old(self).rows()[i].id != r->Ok_0 as int),
            r is Ok && ids_below_max(old(self).rows()) ==> final(self).rows() == old(
                self,
            ).rows().push(fields.with_id(r->Ok_0 as int)) && (forall|i: int|
                0 <= i < old(self).rows().len() ==> old(self).rows()[i].id < r->Ok_0 as int),
    {
        match insert_row(&mut self.conn, fields) {
            Ok(id) => Ok(id),
            Err(_) => Err(StorageError),
        }
    }

    /// Every stored record, in ascending id order.
    pub fn list_all(&self) -> (r: Result<Vec<CalculationRecord>, StorageError>)
        ensures
            r is Ok ==> views_of(r->Ok_0@) == self.rows(),
    {
        match select_rows(&self.conn) {
            Ok(records) => Ok(records),
            Err(_) => Err(StorageError),
        }
    }

    /// How many table definitions named `calculations` the database holds:
    /// exactly one for a well-formed store, however often the schema was
    /// ensured.
    pub fn schema_definition_count(&self) -> (r: Result<i64, StorageError>)
        ensures
            r is Ok ==> r->Ok_0 == (if self.schema_present() {
                1int
            } else {
                0int
            }),
            self.wf() && r is Ok ==> r->Ok_0 == 1,
    {
        match count_table_defs(&self.conn) {
            Ok(n) => Ok(n),
            Err(_) => Err(StorageError),
        }
    }
}

/// Law: appending a row whose identifier exceeds every stored one keeps the
/// id order strict, leaves every earlier row in place, and puts the new row
/// last. With `Store::append`'s contract this gives the append-then-list
/// round trip: listing after a run of appends yields the old rows followed by
/// the appended ones, in order, with strictly increasing identifiers.
pub proof fn lemma_append_keeps_order(rows: Seq<RecordView>, rec: RecordView)
    requires
        ids_sorted(rows),
        forall|i: int| 0 <= i < rows.len() ==> rows[i].id < rec.id,
    ensures
        ids_sorted(rows.push(rec)),
        rows.push(rec).len() == rows.len() + 1,
        forall|i: int| 0 <= i < rows.len() ==> rows.push(rec)[i] == rows[i],
        rows.push(rec)[rows.len() as int] == rec,
{
}

/// Law: identifiers of two successive appends differ. The second identifier
/// is fresh for a listing that still holds the first row, so no record is
/// lost or overwritten by assigning twice.
pub proof fn lemma_two_appends_distinct(rows: Seq<RecordView>, rec1: RecordView, id2: int)
    requires
        forall|i: int| 0 <= i < rows.push(rec1).len() ==> rows.push(rec1)[i].id != id2,
    ensures
        rec1.id != id2,
{
    assert(rows.push(rec1)[rows.len() as int] == rec1);
}

} // verus!
