//! The relational backend: one SQLite table keyed by `public_key`, created
//! idempotently, rows appended one per persisted wallet. The table's contents
//! are modelled as a map from the public key to the stored `(name,
//! private_key)` pair; every statement goes through a trusted item whose
//! contract speaks over that map.

use vstd::prelude::*;
use crate::wallet::{failure_message, success_message, failure_msg, success_msg, lemma_messages_differ, PersistError, Wallet};

verus! {

/// The fixed path, relative to the process's working directory, of the
/// SQLite database file.
pub const DB_PATH: &'static str = "./web3.db";

#[verifier::external_type_specification]
#[verifier::external_body]
pub struct ExConnection(rusqlite::Connection);

#[verifier::external_type_specification]
#[verifier::external_body]
pub struct ExSqlError(rusqlite::Error);

/// What the wallet table of this connection's database holds: for each stored
/// public key, the stored `(name, private_key)` pair. A database without the
/// table counts as holding no rows.
pub uninterp spec fn db_rows(conn: rusqlite::Connection) -> Map<Seq<char>, (Seq<char>, Seq<char>)>;

/// The contents of a wallet table with nothing in it.
pub open spec fn no_rows() -> Map<Seq<char>, (Seq<char>, Seq<char>)> {
    Map::empty()
}

/// Whether the connected database has the wallet table, in this crate's
/// schema. The schema step establishes it; no other statement of this crate
/// creates or drops a table.
pub uninterp spec fn table_present(conn: rusqlite::Connection) -> bool;

/// Relies on `rusqlite::Connection::open`: opens (creating the file when
/// absent) the SQLite database at `path`. What the wallet table then holds
/// came from disk, so nothing is claimed of the rows.
#[verifier::external_body]
fn open_db(path: &str) -> Result<rusqlite::Connection, rusqlite::Error> {
    rusqlite::Connection::open(path)
}

/// Relies on `rusqlite::Connection::open_in_memory`: a fresh connection to a
/// new, empty in-memory database, so the wallet table starts with no rows.
#[verifier::external_body]
fn open_db_in_memory() -> (r: Result<rusqlite::Connection, rusqlite::Error>)
    ensures
        r matches Ok(conn) ==> db_rows(conn) == no_rows(),
{
    rusqlite::Connection::open_in_memory()
}

/// Relies on `rusqlite::Connection::execute` running `CREATE TABLE IF NOT
/// EXISTS`: the statement creates the wallet table when it is absent and is a
/// no-op when it is present, so on success the table is there; existing rows
/// are never touched and an existing table is never dropped, whether the
/// statement succeeds or fails.
#[verifier::external_body]
fn create_wallet_table(conn: &mut rusqlite::Connection) -> (r: Result<(), rusqlite::Error>)
    ensures
        db_rows(*final(conn)) == db_rows(*old(conn)),
        r matches Ok(u) ==> table_present(*final(conn)),
        table_present(*old(conn)) ==> table_present(*final(conn)),
{
    let sql = "
CREATE TABLE IF NOT EXISTS web3_wallet (
    name TEXT,
    public_key TEXT NOT NULL PRIMARY KEY,
    private_key TEXT NOT NULL
);";
    match conn.execute(sql, ()) {
        Ok(_) => Ok(()),
        Err(e) => Err(e),
    }
}

/// Relies on `rusqlite::Connection::execute` running a single-row `INSERT`
/// into the wallet table: on success exactly the given row was added, and the
/// `PRIMARY KEY` constraint on `public_key` makes the statement fail when that
/// key is already stored; a failed statement changes nothing. An `INSERT`
/// never creates or drops a table.
#[verifier::external_body]
fn insert_wallet_row(
    conn: &mut rusqlite::Connection,
    name: &str,
    public_key: &str,
    private_key: &str,
) -> (r: Result<(), rusqlite::Error>)
    ensures
        r matches Ok(u) ==> !db_rows(*old(conn)).contains_key(public_key@)
            && db_rows(*final(conn)) == db_rows(*old(conn)).insert(public_key@, (name@, private_key@)),
        r matches Err(e) ==> db_rows(*final(conn)) == db_rows(*old(conn)),
        db_rows(*old(conn)).contains_key(public_key@) ==> r matches Err(e),
        table_present(*final(conn)) == table_present(*old(conn)),
{
    let sql = "INSERT INTO web3_wallet(name, public_key, private_key) VALUES(?1, ?2, ?3)";
    match conn.execute(sql, (name, public_key, private_key)) {
        Ok(_) => Ok(()),
        Err(e) => Err(e),
    }
}

/// Relies on `rusqlite::Connection::query_row` running a `SELECT` by primary
/// key, with `rusqlite::Row::get` pulling the two text columns: at most one
/// row can match, `QueryReturnedNoRows` means no row has the key, and a
/// returned row is what the table stores under the key. Reading changes no
/// rows and neither creates nor drops a table.
#[verifier::external_body]
fn query_wallet_row(
    conn: &mut rusqlite::Connection,
    public_key: &str,
) -> (r: Result<Option<(String, String)>, rusqlite::Error>)
    ensures
        db_rows(*final(conn)) == db_rows(*old(conn)),
        r matches Ok(row_opt) ==> match row_opt {
            Some(row) => db_rows(*final(conn)).contains_key(public_key@)
                && db_rows(*final(conn))[public_key@] == (row.0@, row.1@),
            None => !db_rows(*final(conn)).contains_key(public_key@),
        },
        table_present(*final(conn)) == table_present(*old(conn)),
{
    let sql = "SELECT name, private_key FROM web3_wallet WHERE public_key = ?1";
    let res = conn.query_row(sql, (public_key,), |row| {
        Ok((row.get::<_, String>(0)?, row.get::<_, String>(1)?))
    });
    match res {
        Ok(pair) => Ok(Some(pair)),
        Err(rusqlite::Error::QueryReturnedNoRows) => Ok(None),
        Err(e) => Err(e),
    }
}

/// Relies on `rusqlite::Connection::query_row` running `SELECT COUNT(*)` on
/// the wallet table: the single returned integer is the number of stored
/// rows, one per stored public key. Reading changes no rows and neither
/// creates nor drops a table.
#[verifier::external_body]
fn count_wallet_rows(conn: &mut rusqlite::Connection) -> (r: Result<i64, rusqlite::Error>)
    ensures
        db_rows(*final(conn)) == db_rows(*old(conn)),
        r matches Ok(n) ==> n >= 0 && db_rows(*final(conn)).dom().finite()
            && n as nat == db_rows(*final(conn)).dom().len(),
        table_present(*final(conn)) == table_present(*old(conn)),
{
    let sql = "SELECT COUNT(*) FROM web3_wallet";
    conn.query_row(sql, (), |row| row.get::<_, i64>(0))
}

/// The relational persistence backend: an owned connection whose wallet table
/// is modelled by `rows()`. One backend value is meant to be built once and
/// handed to each persistence call in turn, which serializes the writes.
pub struct DatabaseBackend {
    conn: rusqlite::Connection,
}

impl DatabaseBackend {
    /// The modelled contents of the wallet table, by public key.
    pub closed spec fn rows(self) -> Map<Seq<char>, (Seq<char>, Seq<char>)> {
        db_rows(self.conn)
    }

    /// Whether this backend's database has the wallet table: the schema step
    /// establishes it, and nothing here ever takes it away.
    pub closed spec fn schema_ready(self) -> bool {
        table_present(self.conn)
    }

    /// A backend on a fresh, empty in-memory database: starts with no rows.
    pub fn open_in_memory() -> (r: Result<DatabaseBackend, PersistError>)
        ensures
            r matches Ok(b) ==> b.rows() == no_rows(),
            r matches Err(e) ==> e == PersistError::Connection,
    {
        match open_db_in_memory() {
            Ok(conn) => Ok(DatabaseBackend { conn }),
            Err(_) => Err(PersistError::Connection),
        }
    }

    /// The idempotent schema step: create the wallet table if it is absent.
    /// Running it any number of times neither errors on an existing table nor
    /// duplicates it, and the stored rows stay exactly as they were; on
    /// success the table is there.
    pub fn init_schema(&mut self) -> (r: Result<(), PersistError>)
        ensures
            final(self).rows() == old(self).rows(),
            r matches Ok(u) ==> final(self).schema_ready(),
            old(self).schema_ready() ==> final(self).schema_ready(),
            r matches Err(e) ==> e == PersistError::Connection,
    {
        match create_wallet_table(&mut self.conn) {
            Ok(u) => Ok(()),
            Err(_) => Err(PersistError::Connection),
        }
    }

    /// Append one wallet as one row, with the `name` column defaulted to the
    /// empty string. Success adds exactly that row; a public key already
    /// stored is refused, and any failure — collision or otherwise — leaves
    /// the table unchanged and is reported as the one undistinguished
    /// insertion kind.
    pub fn persist(&mut self, wallet: &Wallet) -> (r: Result<(), PersistError>)
        ensures
            r matches Ok(u) ==> !old(self).rows().contains_key(wallet.public_key@)
                && final(self).rows() == old(self).rows().insert(
                    wallet.public_key@,
                    (Seq::<char>::empty(), wallet.private_key@),
                ),
            r matches Err(e) ==> final(self).rows() == old(self).rows() && e == PersistError::Insertion,
            old(self).rows().contains_key(wallet.public_key@) ==> r matches Err(e),
            final(self).schema_ready() == old(self).schema_ready(),
    {
        let empty_name = String::new();
        match insert_wallet_row(
            &mut self.conn,
            empty_name.as_str(),
            wallet.public_key.as_str(),
            wallet.private_key.as_str(),
        ) {
            Ok(u) => Ok(()),
            Err(_) => Err(PersistError::Insertion),
        }
    }

    /// Read back the row stored under `public_key`, as a wallet. Failures to
    /// read are collapsed into the connection kind.
    pub fn lookup(&mut self, public_key: &str) -> (r: Result<Option<Wallet>, PersistError>)
        ensures
            final(self).rows() == old(self).rows(),
            r matches Ok(found) ==> match found {
                Some(w) => final(self).rows().contains_key(public_key@)
                    && final(self).rows()[public_key@] == (w.name@, w.private_key@)
                    && w.public_key@ == public_key@,
                None => !final(self).rows().contains_key(public_key@),
            },
            final(self).schema_ready() == old(self).schema_ready(),
            r matches Err(e) ==> e == PersistError::Connection,
    {
        match query_wallet_row(&mut self.conn, public_key) {
            Ok(Some((name, private_key))) => Ok(Some(Wallet::new(
                name,
                public_key.to_owned(),
                private_key,
            ))),
            Ok(None) => Ok(None),
            Err(_) => Err(PersistError::Connection),
        }
    }

    /// The number of stored rows. Failures to read are collapsed into the
    /// connection kind.
    pub fn count(&mut self) -> (r: Result<i64, PersistError>)
        ensures
            final(self).rows() == old(self).rows(),
            r matches Ok(n) ==> n >= 0 && final(self).rows().dom().finite()
                && n as nat == final(self).rows().dom().len(),
            final(self).schema_ready() == old(self).schema_ready(),
            r matches Err(e) ==> e == PersistError::Connection,
    {
        match count_wallet_rows(&mut self.conn) {
            Ok(n) => Ok(n),
            Err(_) => Err(PersistError::Connection),
        }
    }
}

/// Open the database at `path` and run the idempotent schema step: on
/// success the wallet table is there, and the backend handle comes back
/// ready, meant to be built once at process start and then handed to each
/// persistence call. The rows start as whatever the file on disk holds. The
/// model behind `rows()` assumes this handle is the one live handle on that
/// database file and that any pre-existing `web3_wallet` table carries this
/// crate's schema; a second handle on the same file, or a foreign table of
/// the same name, is outside what the contracts describe.
pub fn init_db(path: &str) -> (r: Result<DatabaseBackend, PersistError>)
    ensures
        r matches Ok(b) ==> b.schema_ready(),
        r matches Err(e) ==> e == PersistError::Connection,
{
    match open_db(path) {
        Ok(conn) => {
            let mut backend = DatabaseBackend { conn };
            match backend.init_schema() {
                Ok(u) => Ok(backend),
                Err(_) => Err(PersistError::Connection),
            }
        },
        Err(_) => Err(PersistError::Connection),
    }
}

/// Persist `wallet` through the relational backend and collapse the outcome
/// into the one success or the one failure string: success exactly when the
/// row went in, failure — with the table untouched — otherwise, and always
/// failure on a public-key collision.
pub fn save_db(backend: &mut DatabaseBackend, wallet: &Wallet) -> (r: String)
    ensures
        r@ == success_msg() || r@ == failure_msg(),
        r@ == success_msg() ==> !old(backend).rows().contains_key(wallet.public_key@)
            && final(backend).rows() == old(backend).rows().insert(
                wallet.public_key@,
                (Seq::<char>::empty(), wallet.private_key@),
            ),
        r@ == failure_msg() ==> final(backend).rows() == old(backend).rows(),
        old(backend).rows().contains_key(wallet.public_key@) ==> r@ == failure_msg(),
        final(backend).schema_ready() == old(backend).schema_ready(),
{
    proof {
        lemma_messages_differ();
    }
    match backend.persist(wallet) {
        Ok(u) => success_message(),
        Err(_) => failure_message(),
    }
}

} // verus!
