//! The persistence layer: a `Store` handle owning one SQLite connection,
//! whose three tables are modelled as maps from row id to row contents.
//! Every SQL statement is held behind a trusted wrapper with a fixed,
//! parameter-bound query; the repository operations and their laws are
//! verified against the wrappers' contracts.

use vstd::prelude::*;

use crate::domain::{Board, Comment, Record, StoreError, TableKind, Task};

verus! {

#[verifier::external_type_specification]
#[verifier::external_body]
pub struct ExConnection(rusqlite::Connection);

#[verifier::external_type_specification]
#[verifier::external_body]
pub struct ExSqlError(rusqlite::Error);

/// The rows of the boards table behind `conn`: board id to title.
pub uninterp spec fn boards_of(conn: rusqlite::Connection) -> Map<int, Seq<char>>;

/// The rows of the tasks table behind `conn`: task id to
/// (title, done, board id, created-at, reminder).
pub uninterp spec fn tasks_of(conn: rusqlite::Connection) -> Map<
    int,
    (Seq<char>, bool, int, Seq<char>, Seq<char>),
>;

/// The rows of the comments table behind `conn`: comment id to
/// (title, task id, created-at).
pub uninterp spec fn comments_of(conn: rusqlite::Connection) -> Map<
    int,
    (Seq<char>, int, Seq<char>),
>;

/// Whether the boards table exists in the database behind `conn`.
pub uninterp spec fn boards_table_ready(conn: rusqlite::Connection) -> bool;

/// Whether the tasks table exists in the database behind `conn`.
pub uninterp spec fn tasks_table_ready(conn: rusqlite::Connection) -> bool;

/// Whether the comments table exists in the database behind `conn`.
pub uninterp spec fn comments_table_ready(conn: rusqlite::Connection) -> bool;

/// The handle to the on-disk (or in-memory) store. All repository
/// operations go through a `Store`, so a test can run against a temporary
/// in-memory database. The table models describe the database behind this
/// one handle; they are faithful while no other connection mutates the same
/// database, the tool's single-process, single-handle mode of use.
pub struct Store {
    conn: rusqlite::Connection,
}

impl Store {
    /// The board table: id to title.
    pub closed spec fn boards(self) -> Map<int, Seq<char>> {
        boards_of(self.conn)
    }

    /// The task table: id to (title, done, board id, created-at, reminder).
    pub closed spec fn tasks(self) -> Map<int, (Seq<char>, bool, int, Seq<char>, Seq<char>)> {
        tasks_of(self.conn)
    }

    /// The comment table: id to (title, task id, created-at).
    pub closed spec fn comments(self) -> Map<int, (Seq<char>, int, Seq<char>)> {
        comments_of(self.conn)
    }

    /// Whether all three tables of the schema exist, so that the row
    /// operations can run.
    pub closed spec fn schema_ready(self) -> bool {
        boards_table_ready(self.conn) && tasks_table_ready(self.conn) && comments_table_ready(
            self.conn,
        )
    }
}

/// The row contents that stand for a task in the table model.
pub open spec fn task_row(t: Task) -> (Seq<char>, bool, int, Seq<char>, Seq<char>) {
    (t.title@, t.done, t.board_id as int, t.created_at@, t.reminder@)
}

/// The vector holds exactly the rows of the board table, each id once, in
/// some order.
pub open spec fn boards_match(v: Seq<Board>, m: Map<int, Seq<char>>) -> bool {
    &&& forall|i: int|
        0 <= i < v.len() ==> m.contains_pair(#[trigger] v[i].id as int, v[i].title@)
    &&& forall|i: int, j: int| 0 <= i < j < v.len() ==> v[i].id != v[j].id
    &&& forall|k: int|
        #[trigger] m.contains_key(k) ==> exists|i: int| 0 <= i < v.len() && v[i].id as int == k
}

/// The vector holds exactly the rows of the task table, each id once, in
/// some order.
pub open spec fn tasks_match(
    v: Seq<Task>,
    m: Map<int, (Seq<char>, bool, int, Seq<char>, Seq<char>)>,
) -> bool {
    &&& forall|i: int| 0 <= i < v.len() ==> m.contains_pair(#[trigger] v[i].id as int, task_row(v[i]))
    &&& forall|i: int, j: int| 0 <= i < j < v.len() ==> v[i].id != v[j].id
    &&& forall|k: int|
        #[trigger] m.contains_key(k) ==> exists|i: int| 0 <= i < v.len() && v[i].id as int == k
}

/// The vector holds exactly the rows of the comment table, each id once, in
/// some order; the second component of each pair is the owning task id.
pub open spec fn comments_match(v: Seq<(Comment, u16)>, m: Map<int, (Seq<char>, int, Seq<char>)>) -> bool {
    &&& forall|i: int|
        0 <= i < v.len() ==> m.contains_pair(
            #[trigger] v[i].0.id as int,
            (v[i].0.title@, v[i].1 as int, v[i].0.created_at@),
        )
    &&& forall|i: int, j: int| 0 <= i < j < v.len() ==> v[i].0.id != v[j].0.id
    &&& forall|k: int|
        #[trigger] m.contains_key(k) ==> exists|i: int| 0 <= i < v.len() && v[i].0.id as int == k
}

/// Inserting a row under a fresh id grows a finite table by exactly one
/// and stores the given contents at that id: counting after an insert sees
/// one more row, and listing sees the new contents under the returned id.
pub proof fn lemma_insert_fresh_grows_by_one<V>(m: Map<int, V>, id: int, value: V)
    requires
        m.dom().finite(),
        !m.contains_key(id),
    ensures
        m.insert(id, value).len() == m.len() + 1,
        m.insert(id, value)[id] == value,
{
    vstd::set::axiom_set_insert_len(m.dom(), id);
}

/// Removing an id that no row carries leaves the table unchanged: deleting
/// a non-existent id is a no-op, never an error of the model.
pub proof fn lemma_remove_absent_is_identity<V>(m: Map<int, V>, id: int)
    requires
        !m.contains_key(id),
    ensures
        m.remove(id) == m,
{
    assert(m.remove(id) =~= m);
}

/// Relies on rusqlite's `Connection::open_in_memory`: a fresh in-memory
/// database holds no rows in any table.
#[verifier::external_body]
fn conn_open_in_memory() -> (r: Result<rusqlite::Connection, rusqlite::Error>)
    ensures
        r matches Ok(c) ==> {
            &&& boards_of(c) == Map::<int, Seq<char>>::empty()
            &&& tasks_of(c) == Map::<int, (Seq<char>, bool, int, Seq<char>, Seq<char>)>::empty()
            &&& comments_of(c) == Map::<int, (Seq<char>, int, Seq<char>)>::empty()
        },
{
    rusqlite::Connection::open_in_memory()
}

/// Relies on rusqlite's `Connection::open`: opens (creating it when absent)
/// the database file at `path`; nothing is known of its contents.
#[verifier::external_body]
fn conn_open(path: &str) -> (r: Result<rusqlite::Connection, rusqlite::Error>)
{
    rusqlite::Connection::open(path)
}

/// Relies on `Connection::execute` running `CREATE TABLE IF NOT EXISTS
/// boards (...)`: creating a table adds or removes no rows; on success the
/// boards table exists, and no other table's existence changes.
#[verifier::external_body]
fn exec_create_boards_table(s: &mut Store) -> (r: Result<(), rusqlite::Error>)
    ensures
        boards_of(final(s).conn) == boards_of(old(s).conn),
        tasks_of(final(s).conn) == tasks_of(old(s).conn),
        comments_of(final(s).conn) == comments_of(old(s).conn),
        r is Ok ==> boards_table_ready(final(s).conn),
        tasks_table_ready(final(s).conn) == tasks_table_ready(old(s).conn),
        comments_table_ready(final(s).conn) == comments_table_ready(old(s).conn),
{
    s.conn.execute(
        "CREATE TABLE IF NOT EXISTS boards (
             id    INTEGER PRIMARY KEY,
             title VARCHAR(255) NOT NULL
         );",
        [],
    )?;
    Ok(())
}

/// Relies on `Connection::execute` running `CREATE TABLE IF NOT EXISTS
/// tasks (...)` with a foreign key on the boards table: creating a table
/// adds or removes no rows; on success the tasks table exists, and no other
/// table's existence changes.
#[verifier::external_body]
fn exec_create_tasks_table(s: &mut Store) -> (r: Result<(), rusqlite::Error>)
    ensures
        boards_of(final(s).conn) == boards_of(old(s).conn),
        tasks_of(final(s).conn) == tasks_of(old(s).conn),
        comments_of(final(s).conn) == comments_of(old(s).conn),
        r is Ok ==> tasks_table_ready(final(s).conn),
        boards_table_ready(final(s).conn) == boards_table_ready(old(s).conn),
        comments_table_ready(final(s).conn) == comments_table_ready(old(s).conn),
{
    s.conn.execute(
        "CREATE TABLE IF NOT EXISTS tasks (
             id         INTEGER PRIMARY KEY,
             title      VARCHAR(255) NOT NULL,
             done       INTEGER NOT NULL,
             board_id   INTEGER NOT NULL,
             created_at VARCHAR(255) NOT NULL,
             reminder   VARCHAR(255) NOT NULL,
             FOREIGN KEY(board_id) REFERENCES boards(id)
         );",
        [],
    )?;
    Ok(())
}

/// Relies on `Connection::execute` running `CREATE TABLE IF NOT EXISTS
/// comments (...)` with a foreign key on the tasks table: creating a table
/// adds or removes no rows; on success the comments table exists, and no
/// other table's existence changes.
#[verifier::external_body]
fn exec_create_comments_table(s: &mut Store) -> (r: Result<(), rusqlite::Error>)
    ensures
        boards_of(final(s).conn) == boards_of(old(s).conn),
        tasks_of(final(s).conn) == tasks_of(old(s).conn),
        comments_of(final(s).conn) == comments_of(old(s).conn),
        r is Ok ==> comments_table_ready(final(s).conn),
        boards_table_ready(final(s).conn) == boards_table_ready(old(s).conn),
        tasks_table_ready(final(s).conn) == tasks_table_ready(old(s).conn),
{
    s.conn.execute(
        "CREATE TABLE IF NOT EXISTS comments (
             id         INTEGER PRIMARY KEY,
             title      VARCHAR(255) NOT NULL,
             task_id    INTEGER NOT NULL,
             created_at VARCHAR(255) NOT NULL,
             FOREIGN KEY(task_id) REFERENCES tasks(id)
         );",
        [],
    )?;
    Ok(())
}

/// Relies on `Connection::query_row` running `SELECT COUNT(*) FROM boards`:
/// the number of rows of a finite table.
#[verifier::external_body]
fn exec_count_boards(s: &Store) -> (r: Result<Record, rusqlite::Error>)
    ensures
        r matches Ok(rec) ==> boards_of(s.conn).dom().finite() && rec.qtd as int == boards_of(
            s.conn,
        ).len(),
{
    let qtd = s.conn.query_row("SELECT COUNT(*) FROM boards", [], |row| row.get(0))?;
    Ok(Record { qtd })
}

/// Relies on `Connection::query_row` running `SELECT COUNT(*) FROM tasks`:
/// the number of rows of a finite table.
#[verifier::external_body]
fn exec_count_tasks(s: &Store) -> (r: Result<Record, rusqlite::Error>)
    ensures
        r matches Ok(rec) ==> tasks_of(s.conn).dom().finite() && rec.qtd as int == tasks_of(
            s.conn,
        ).len(),
{
    let qtd = s.conn.query_row("SELECT COUNT(*) FROM tasks", [], |row| row.get(0))?;
    Ok(Record { qtd })
}

/// Relies on `Connection::query_row` running `SELECT COUNT(*) FROM
/// comments`: the number of rows of a finite table.
#[verifier::external_body]
fn exec_count_comments(s: &Store) -> (r: Result<Record, rusqlite::Error>)
    ensures
        r matches Ok(rec) ==> comments_of(s.conn).dom().finite() && rec.qtd as int == comments_of(
            s.conn,
        ).len(),
{
    let qtd = s.conn.query_row("SELECT COUNT(*) FROM comments", [], |row| row.get(0))?;
    Ok(Record { qtd })
}

/// Relies on `Connection::execute` running `INSERT INTO boards (title)
/// VALUES (?1)` with the title bound, and on `last_insert_rowid`: a stored
/// table holds finitely many rows, the new row gets an id that was not in
/// use, and no other table is touched. A failed statement changes nothing.
#[verifier::external_body]
fn exec_insert_board(s: &mut Store, title: &str) -> (r: Result<i64, rusqlite::Error>)
    ensures
        boards_of(old(s).conn).dom().finite(),
        r matches Ok(id) ==> {
            &&& !boards_of(old(s).conn).contains_key(id as int)
            &&& boards_of(final(s).conn) == boards_of(old(s).conn).insert(id as int, title@)
        },
        r is Err ==> boards_of(final(s).conn) == boards_of(old(s).conn),
        tasks_of(final(s).conn) == tasks_of(old(s).conn),
        comments_of(final(s).conn) == comments_of(old(s).conn),
{
    s.conn.execute("INSERT INTO boards (title) VALUES (?1)", (title,))?;
    Ok(s.conn.last_insert_rowid())
}

/// Opens a fresh in-memory store, for tests and temporary use: all three
/// tables start empty.
pub fn open_in_memory() -> (r: Result<Store, StoreError>)
    ensures
        r matches Ok(s) ==> {
            &&& s.boards() == Map::<int, Seq<char>>::empty()
            &&& s.tasks() == Map::<int, (Seq<char>, bool, int, Seq<char>, Seq<char>)>::empty()
            &&& s.comments() == Map::<int, (Seq<char>, int, Seq<char>)>::empty()
        },
        r is Err ==> r->Err_0 == StoreError::StorageUnavailable,
{
    match conn_open_in_memory() {
        Ok(c) => Ok(Store { conn: c }),
        Err(_) => Err(StoreError::StorageUnavailable),
    }
}

/// Opens the store at a database file path, creating the file when absent;
/// nothing is known of its prior contents.
pub fn get_connection(path: &str) -> (r: Result<Store, StoreError>)
    ensures
        r is Err ==> r->Err_0 == StoreError::StorageUnavailable,
{
    match conn_open(path) {
        Ok(c) => Ok(Store { conn: c }),
        Err(_) => Err(StoreError::StorageUnavailable),
    }
}

/// Idempotently ensures the three tables exist, in dependency order
/// (boards, then tasks, then comments). Safe on every start: existing rows
/// are never altered, and on success the whole schema is in place. A
/// failure here means the store is unusable.
pub fn create_database(s: &mut Store) -> (r: Result<(), StoreError>)
    ensures
        final(s).boards() == old(s).boards(),
        final(s).tasks() == old(s).tasks(),
        final(s).comments() == old(s).comments(),
        r is Ok ==> final(s).schema_ready(),
        r is Err ==> r->Err_0 == StoreError::StorageUnavailable,
{
    match exec_create_boards_table(s) {
        Ok(_) => (),
        Err(_) => {
            return Err(StoreError::StorageUnavailable);
        },
    }
    match exec_create_tasks_table(s) {
        Ok(_) => (),
        Err(_) => {
            return Err(StoreError::StorageUnavailable);
        },
    }
    match exec_create_comments_table(s) {
        Ok(_) => (),
        Err(_) => {
            return Err(StoreError::StorageUnavailable);
        },
    }
    Ok(())
}

/// The number of rows the chosen table holds in the model.
pub open spec fn table_len(s: Store, table: TableKind) -> nat {
    match table {
        TableKind::Boards => s.boards().len(),
        TableKind::Tasks => s.tasks().len(),
        TableKind::Comments => s.comments().len(),
    }
}

/// How many records the chosen table holds; 0 on an empty table. Callers
/// use this to detect empty-state conditions such as "no boards yet".
pub fn get_records_qtd(s: &Store, table: TableKind) -> (r: Result<u16, StoreError>)
    ensures
        r matches Ok(n) ==> n as int == table_len(*s, table),
        r is Err ==> r->Err_0 == StoreError::QueryFailure,
{
    let rec = match table {
        TableKind::Boards => exec_count_boards(s),
        TableKind::Tasks => exec_count_tasks(s),
        TableKind::Comments => exec_count_comments(s),
    };
    match rec {
        Ok(record) => Ok(record.qtd),
        Err(_) => Err(StoreError::QueryFailure),
    }
}

/// Inserts a new board with the given title. The store assigns and returns
/// an id that was not previously in use: the board table grows by exactly
/// one and holds the title at the new id; no other table changes. On
/// failure the board table is unchanged, unless the store assigned an id
/// beyond `u16`: then the one new row stands under that out-of-range id.
pub fn create_board(s: &mut Store, title: &str) -> (r: Result<u16, StoreError>)
    ensures
        old(s).boards().dom().finite(),
        r matches Ok(id) ==> {
            &&& !old(s).boards().contains_key(id as int)
            &&& final(s).boards() == old(s).boards().insert(id as int, title@)
            &&& final(s).boards().len() == old(s).boards().len() + 1
            &&& final(s).boards()[id as int] == title@
        },
        r is Err ==> {
            &&& r->Err_0 == StoreError::QueryFailure
            &&& (final(s).boards() == old(s).boards() || (exists|k: int|
                {
                    &&& !(0 <= k <= u16::MAX)
                    &&& !old(s).boards().contains_key(k)
                    &&& final(s).boards() == old(s).boards().insert(k, title@)
                }))
        },
        final(s).tasks() == old(s).tasks(),
        final(s).comments() == old(s).comments(),
{
    match exec_insert_board(s, title) {
        Ok(id) => {
            if 0 <= id && id <= u16::MAX as i64 {
                proof {
                    lemma_insert_fresh_grows_by_one(old(s).boards(), id as int, title@);
                }
                Ok(id as u16)
            } else {
                proof {
                    assert(final(s).boards() == old(s).boards().insert(id as int, title@));
                }
                Err(StoreError::QueryFailure)
            }
        },
        Err(_) => Err(StoreError::QueryFailure),
    }
}

/// Relies on `Connection::prepare` and `Statement::query_map` running
/// `SELECT id, title FROM boards`: every row of the table is returned, each
/// once, in some order left open.
#[verifier::external_body]
fn exec_query_boards(s: &Store) -> (r: Result<Vec<Board>, rusqlite::Error>)
    ensures
        r matches Ok(v) ==> boards_match(v@, boards_of(s.conn)),
{
    let mut stmt = s.conn.prepare("SELECT id, title FROM boards")?;
    let rows = stmt.query_map([], |row| Ok(Board { id: row.get(0)?, title: row.get(1)? }))?;
    let mut v: Vec<Board> = Vec::new();
    for b in rows {
        v.push(b?);
    }
    Ok(v)
}

/// Relies on `Connection::prepare` and `Statement::query_map` running
/// `SELECT id, title, done, board_id, created_at, reminder FROM tasks`:
/// every row of the table is returned, each once, in some order left open.
#[verifier::external_body]
fn exec_query_tasks(s: &Store) -> (r: Result<Vec<Task>, rusqlite::Error>)
    ensures
        r matches Ok(v) ==> tasks_match(v@, tasks_of(s.conn)),
{
    let sql = "SELECT id, title, done, board_id, created_at, reminder FROM tasks";
    let mut stmt = s.conn.prepare(sql)?;
    let rows = stmt.query_map([], |row| {
        Ok(Task {
            id: row.get(0)?, title: row.get(1)?, done: row.get(2)?,
            board_id: row.get(3)?, created_at: row.get(4)?, reminder: row.get(5)?,
        })
    })?;
    let mut v: Vec<Task> = Vec::new();
    for t in rows {
        v.push(t?);
    }
    Ok(v)
}

/// Relies on `Connection::prepare` and `Statement::query_map` running
/// `SELECT id, title, task_id, created_at FROM comments`: every row of the
/// table is returned with its owning task id, each once, in some order left
/// open.
#[verifier::external_body]
fn exec_query_comments(s: &Store) -> (r: Result<Vec<(Comment, u16)>, rusqlite::Error>)
    ensures
        r matches Ok(v) ==> comments_match(v@, comments_of(s.conn)),
{
    let mut stmt = s.conn.prepare("SELECT id, title, task_id, created_at FROM comments")?;
    let rows = stmt.query_map([], |row| {
        Ok((Comment { id: row.get(0)?, title: row.get(1)?, created_at: row.get(3)? }, row.get(2)?))
    })?;
    let mut v: Vec<(Comment, u16)> = Vec::new();
    for c in rows {
        v.push(c?);
    }
    Ok(v)
}

/// Relies on `Connection::execute` running `DELETE FROM boards WHERE id =
/// ?1` with the id bound: exactly the row with that id (if any) leaves; no
/// other table is touched, and a failed statement changes nothing.
#[verifier::external_body]
fn exec_delete_board(s: &mut Store, id: u16) -> (r: Result<(), rusqlite::Error>)
    ensures
        r is Ok ==> boards_of(final(s).conn) == boards_of(old(s).conn).remove(id as int),
        r is Err ==> boards_of(final(s).conn) == boards_of(old(s).conn),
        tasks_of(final(s).conn) == tasks_of(old(s).conn),
        comments_of(final(s).conn) == comments_of(old(s).conn),
{
    s.conn.execute("DELETE FROM boards WHERE id = ?1", (id,))?;
    Ok(())
}

/// Relies on `Connection::execute` running `DELETE FROM tasks WHERE id =
/// ?1` with the id bound: exactly the row with that id (if any) leaves; no
/// other table is touched, and a failed statement changes nothing.
#[verifier::external_body]
fn exec_delete_task(s: &mut Store, id: u16) -> (r: Result<(), rusqlite::Error>)
    ensures
        r is Ok ==> tasks_of(final(s).conn) == tasks_of(old(s).conn).remove(id as int),
        r is Err ==> tasks_of(final(s).conn) == tasks_of(old(s).conn),
        boards_of(final(s).conn) == boards_of(old(s).conn),
        comments_of(final(s).conn) == comments_of(old(s).conn),
{
    s.conn.execute("DELETE FROM tasks WHERE id = ?1", (id,))?;
    Ok(())
}

/// Relies on `Connection::execute` running `DELETE FROM comments WHERE id =
/// ?1` with the id bound: exactly the row with that id (if any) leaves; no
/// other table is touched, and a failed statement changes nothing.
#[verifier::external_body]
fn exec_delete_comment(s: &mut Store, id: u16) -> (r: Result<(), rusqlite::Error>)
    ensures
        r is Ok ==> comments_of(final(s).conn) == comments_of(old(s).conn).remove(id as int),
        r is Err ==> comments_of(final(s).conn) == comments_of(old(s).conn),
        boards_of(final(s).conn) == boards_of(old(s).conn),
        tasks_of(final(s).conn) == tasks_of(old(s).conn),
{
    s.conn.execute("DELETE FROM comments WHERE id = ?1", (id,))?;
    Ok(())
}

/// Relies on `Connection::execute` running `UPDATE boards SET title = ?1
/// WHERE id = ?2` with both values bound: the row with that id (if any)
/// gets the new title; no other row or table is touched, and a failed
/// statement changes nothing.
#[verifier::external_body]
fn exec_update_board_title(s: &mut Store, id: u16, title: &str) -> (r: Result<
    (),
    rusqlite::Error,
>)
    ensures
        r is Ok ==> boards_of(final(s).conn) == (if boards_of(old(s).conn).contains_key(id as int) {
            boards_of(old(s).conn).insert(id as int, title@)
        } else {
            boards_of(old(s).conn)
        }),
        r is Err ==> boards_of(final(s).conn) == boards_of(old(s).conn),
        tasks_of(final(s).conn) == tasks_of(old(s).conn),
        comments_of(final(s).conn) == comments_of(old(s).conn),
{
    s.conn.execute("UPDATE boards SET title = ?1 WHERE id = ?2", (title, id))?;
    Ok(())
}

/// Relies on `Connection::execute` running `UPDATE tasks SET done = ?1
/// WHERE id = ?2` with both values bound: the row with that id (if any)
/// gets the new done flag, its other columns kept; no other row or table is
/// touched, and a failed statement changes nothing.
#[verifier::external_body]
fn exec_update_task_done(s: &mut Store, id: u16, done: bool) -> (r: Result<(), rusqlite::Error>)
    ensures
        r is Ok ==> tasks_of(final(s).conn) == ({
            let m = tasks_of(old(s).conn);
            if m.contains_key(id as int) {
                m.insert(
                    id as int,
                    (m[id as int].0, done, m[id as int].2, m[id as int].3, m[id as int].4),
                )
            } else {
                m
            }
        }),
        r is Err ==> tasks_of(final(s).conn) == tasks_of(old(s).conn),
        boards_of(final(s).conn) == boards_of(old(s).conn),
        comments_of(final(s).conn) == comments_of(old(s).conn),
{
    s.conn.execute("UPDATE tasks SET done = ?1 WHERE id = ?2", (done, id))?;
    Ok(())
}

/// Relies on `Connection::execute` running `UPDATE tasks SET reminder = ?1
/// WHERE id = ?2` with both values bound: the row with that id (if any)
/// gets the new reminder, its other columns kept; no other row or table is
/// touched, and a failed statement changes nothing.
#[verifier::external_body]
fn exec_update_task_reminder(s: &mut Store, id: u16, reminder: &str) -> (r: Result<
    (),
    rusqlite::Error,
>)
    ensures
        r is Ok ==> tasks_of(final(s).conn) == ({
            let m = tasks_of(old(s).conn);
            if m.contains_key(id as int) {
                m.insert(
                    id as int,
                    (m[id as int].0, m[id as int].1, m[id as int].2, m[id as int].3, reminder@),
                )
            } else {
                m
            }
        }),
        r is Err ==> tasks_of(final(s).conn) == tasks_of(old(s).conn),
        boards_of(final(s).conn) == boards_of(old(s).conn),
        comments_of(final(s).conn) == comments_of(old(s).conn),
{
    s.conn.execute("UPDATE tasks SET reminder = ?1 WHERE id = ?2", (reminder, id))?;
    Ok(())
}

/// Relies on `Connection::execute` running `INSERT INTO tasks (title, done,
/// board_id, created_at, reminder) VALUES (?1, ?2, ?3, ?4, ?5)` with every
/// value bound, and on `last_insert_rowid`: a stored table holds finitely
/// many rows, the new row gets an id that was not in use; no other table is
/// touched, and a failed statement changes nothing.
#[verifier::external_body]
fn exec_insert_task(
    s: &mut Store,
    title: &str,
    done: bool,
    board_id: u16,
    created_at: &str,
    reminder: &str,
) -> (r: Result<i64, rusqlite::Error>)
    ensures
        tasks_of(old(s).conn).dom().finite(),
        r matches Ok(id) ==> {
            &&& !tasks_of(old(s).conn).contains_key(id as int)
            &&& tasks_of(final(s).conn) == tasks_of(old(s).conn).insert(
                id as int,
                (title@, done, board_id as int, created_at@, reminder@),
            )
        },
        r is Err ==> tasks_of(final(s).conn) == tasks_of(old(s).conn),
        boards_of(final(s).conn) == boards_of(old(s).conn),
        comments_of(final(s).conn) == comments_of(old(s).conn),
{
    s.conn.execute(
        "INSERT INTO tasks (title, done, board_id, created_at, reminder) VALUES (?1, ?2, ?3, ?4, ?5)",
        (title, done, board_id, created_at, reminder),
    )?;
    Ok(s.conn.last_insert_rowid())
}

/// Relies on `Connection::execute` running `INSERT INTO comments (title,
/// task_id, created_at) VALUES (?1, ?2, ?3)` with every value bound, and on
/// `last_insert_rowid`: a stored table holds finitely many rows, the new
/// row gets an id that was not in use; no other table is touched, and a
/// failed statement changes nothing.
#[verifier::external_body]
fn exec_insert_comment(s: &mut Store, title: &str, task_id: u16, created_at: &str) -> (r: Result<
    i64,
    rusqlite::Error,
>)
    ensures
        comments_of(old(s).conn).dom().finite(),
        r matches Ok(id) ==> {
            &&& !comments_of(old(s).conn).contains_key(id as int)
            &&& comments_of(final(s).conn) == comments_of(old(s).conn).insert(
                id as int,
                (title@, task_id as int, created_at@),
            )
        },
        r is Err ==> comments_of(final(s).conn) == comments_of(old(s).conn),
        boards_of(final(s).conn) == boards_of(old(s).conn),
        tasks_of(final(s).conn) == tasks_of(old(s).conn),
{
    s.conn.execute(
        "INSERT INTO comments (title, task_id, created_at) VALUES (?1, ?2, ?3)",
        (title, task_id, created_at),
    )?;
    Ok(s.conn.last_insert_rowid())
}

/// Every board of the store, each id once, in an order left open.
pub fn get_boards(s: &Store) -> (r: Result<Vec<Board>, StoreError>)
    ensures
        r matches Ok(v) ==> boards_match(v@, s.boards()),
        r is Err ==> r->Err_0 == StoreError::QueryFailure,
{
    match exec_query_boards(s) {
        Ok(v) => Ok(v),
        Err(_) => Err(StoreError::QueryFailure),
    }
}

/// Whether a task row passes the conjunctive filter: the done flag must
/// match when one is asked for, and the board must match when one is asked
/// for (no board scope means all boards).
pub open spec fn row_selected(
    row: (Seq<char>, bool, int, Seq<char>, Seq<char>),
    done: Option<bool>,
    board_id: Option<u16>,
) -> bool {
    &&& (done matches Some(d) ==> row.1 == d)
    &&& (board_id matches Some(b) ==> row.2 == b as int)
}

/// Whether a task entity passes the conjunctive filter.
pub open spec fn task_selected(t: Task, done: Option<bool>, board_id: Option<u16>) -> bool {
    row_selected(task_row(t), done, board_id)
}

/// The vector holds exactly the rows of the task table that pass the
/// conjunctive filter, each id once, in some order: every listed task is a
/// row passing the filter, no id repeats, and every row passing the filter
/// is listed.
pub open spec fn tasks_filtered(
    v: Seq<Task>,
    m: Map<int, (Seq<char>, bool, int, Seq<char>, Seq<char>)>,
    done: Option<bool>,
    board_id: Option<u16>,
) -> bool {
    &&& forall|i: int|
        0 <= i < v.len() ==> m.contains_pair(#[trigger] v[i].id as int, task_row(v[i]))
            && task_selected(v[i], done, board_id)
    &&& forall|i: int, j: int| 0 <= i < j < v.len() ==> v[i].id != v[j].id
    &&& forall|k: int|
        (#[trigger] m.contains_key(k)) && row_selected(m[k], done, board_id) ==> exists|i: int|
            0 <= i < v.len() && v[i].id as int == k
}

/// The tasks passing the conjunctive filter `done = ? [AND board_id = ?]`,
/// each id once, in an order left open: every returned task is a row of the
/// table and passes the filter, and every row passing the filter is
/// returned.
#[verifier::rlimit(100)]
pub fn get_tasks(s: &Store, done: Option<bool>, board_id: Option<u16>) -> (r: Result<
    Vec<Task>,
    StoreError,
>)
    ensures
        r matches Ok(v) ==> tasks_filtered(v@, s.tasks(), done, board_id),
        r is Err ==> r->Err_0 == StoreError::QueryFailure,
{
    let all = match exec_query_tasks(s) {
        Ok(v) => v,
        Err(_) => {
            return Err(StoreError::QueryFailure);
        },
    };
    let ghost sel = |t: Task| task_selected(t, done, board_id);
    let mut out: Vec<Task> = Vec::new();
    let mut i: usize = 0;
    while i < all.len()
        invariant
            i <= all@.len(),
            tasks_match(all@, s.tasks()),
            sel == (|t: Task| task_selected(t, done, board_id)),
            out@ == all@.subrange(0, i as int).filter(sel),
        decreases all@.len() - i,
    {
        let t = &all[i];
        let keep_done = match done {
            Some(d) => t.done == d,
            None => true,
        };
        let keep_board = match board_id {
            Some(b) => t.board_id == b,
            None => true,
        };
        proof {
            let gi = i as int;
            assert(all@.subrange(0, gi + 1) =~= all@.subrange(0, gi).push(all@[gi]));
            crate::selection::lemma_filter_push(all@.subrange(0, gi), all@[gi], sel);
            assert((keep_done && keep_board) == sel(all@[gi]));
        }
        if keep_done && keep_board {
            out.push(t.clone());
        }
        i += 1;
    }
    proof {
        assert(all@.subrange(0, all@.len() as int) =~= all@);
        assert(out@ == all@.filter(sel));
        crate::selection::lemma_filter_elems(all@, sel);
        let key = |t: Task| t.id as int;
        crate::selection::lemma_filter_keeps_distinct(all@, sel, key);
        assert forall|p: int, q: int| 0 <= p < q < out@.len() implies out@[p].id != out@[q].id by {
            assert(key(all@.filter(sel)[p]) != key(all@.filter(sel)[q]));
        }
        assert forall|p: int| 0 <= p < out@.len() implies s.tasks().contains_pair(
            #[trigger] out@[p].id as int,
            task_row(out@[p]),
        ) && task_selected(out@[p], done, board_id) by {
            all@.lemma_filter_pred(sel, p);
            assert(all@.contains(out@[p]));
            let q = choose|q: int| 0 <= q < all@.len() && all@[q] == out@[p];
            assert(s.tasks().contains_pair(all@[q].id as int, task_row(all@[q])));
        }
        assert forall|k: int|
            (#[trigger] s.tasks().contains_key(k)) && row_selected(
                s.tasks()[k],
                done,
                board_id,
            ) implies exists|p: int| 0 <= p < out@.len() && out@[p].id as int == k by {
            let idx = choose|idx: int| 0 <= idx < all@.len() && all@[idx].id as int == k;
            assert(s.tasks().contains_pair(all@[idx].id as int, task_row(all@[idx])));
            assert(task_row(all@[idx]) == s.tasks()[k]);
            assert(sel(all@[idx]));
            all@.lemma_filter_contains(sel, idx);
            assert(out@.contains(all@[idx]));
            let p = choose|p: int| 0 <= p < out@.len() && out@[p] == all@[idx];
            assert(out@[p].id as int == k);
        }
    }
    Ok(out)
}

/// The vector holds exactly the comments owned by the given task, each id
/// once, in some order: every listed comment is a row of the table attached
/// to that task, no id repeats, and every such row is listed.
pub open spec fn comments_for_task(
    v: Seq<Comment>,
    m: Map<int, (Seq<char>, int, Seq<char>)>,
    task_id: u16,
) -> bool {
    &&& forall|i: int|
        0 <= i < v.len() ==> m.contains_pair(
            #[trigger] v[i].id as int,
            (v[i].title@, task_id as int, v[i].created_at@),
        )
    &&& forall|i: int, j: int| 0 <= i < j < v.len() ==> v[i].id != v[j].id
    &&& forall|k: int|
        (#[trigger] m.contains_key(k)) && m[k].1 == task_id as int ==> exists|i: int|
            0 <= i < v.len() && v[i].id as int == k
}

/// The comments attached to the given task, each id once, in an order left
/// open: every returned comment is a row of the table owned by that task,
/// and every such row is returned.
#[verifier::rlimit(100)]
pub fn get_comments_by_task_id(s: &Store, task_id: u16) -> (r: Result<Vec<Comment>, StoreError>)
    ensures
        r matches Ok(v) ==> comments_for_task(v@, s.comments(), task_id),
        r is Err ==> r->Err_0 == StoreError::QueryFailure,
{
    let all = match exec_query_comments(s) {
        Ok(v) => v,
        Err(_) => {
            return Err(StoreError::QueryFailure);
        },
    };
    let ghost pc = |p: (Comment, u16)| p.1 == task_id;
    let mut out: Vec<Comment> = Vec::new();
    let mut i: usize = 0;
    while i < all.len()
        invariant
            i <= all@.len(),
            comments_match(all@, s.comments()),
            pc == (|p: (Comment, u16)| p.1 == task_id),
            out@.len() == all@.subrange(0, i as int).filter(pc).len(),
            forall|p: int|
                0 <= p < out@.len() ==> #[trigger] out@[p] == all@.subrange(0, i as int).filter(
                    pc,
                )[p].0,
        decreases all@.len() - i,
    {
        proof {
            let gi = i as int;
            assert(all@.subrange(0, gi + 1) =~= all@.subrange(0, gi).push(all@[gi]));
            crate::selection::lemma_filter_push(all@.subrange(0, gi), all@[gi], pc);
        }
        if all[i].1 == task_id {
            out.push(all[i].0.clone());
        }
        i += 1;
    }
    proof {
        assert(all@.subrange(0, all@.len() as int) =~= all@);
        let f = all@.filter(pc);
        assert(out@.len() == f.len());
        crate::selection::lemma_filter_elems(all@, pc);
        let key = |p: (Comment, u16)| p.0.id as int;
        crate::selection::lemma_filter_keeps_distinct(all@, pc, key);
        assert forall|p: int| 0 <= p < out@.len() implies s.comments().contains_pair(
            #[trigger] out@[p].id as int,
            (out@[p].title@, task_id as int, out@[p].created_at@),
        ) by {
            all@.lemma_filter_pred(pc, p);
            assert(all@.contains(f[p]));
            let q = choose|q: int| 0 <= q < all@.len() && all@[q] == f[p];
            assert(s.comments().contains_pair(
                all@[q].0.id as int,
                (all@[q].0.title@, all@[q].1 as int, all@[q].0.created_at@),
            ));
            assert(pc(f[p]));
            assert(out@[p] == f[p].0);
        }
        assert forall|p: int, q: int| 0 <= p < q < out@.len() implies out@[p].id != out@[q].id by {
            assert(key(f[p]) != key(f[q]));
            assert(out@[p] == f[p].0 && out@[q] == f[q].0);
        }
        assert forall|k: int|
            (#[trigger] s.comments().contains_key(k)) && s.comments()[k].1
                == task_id as int implies exists|i2: int|
            0 <= i2 < out@.len() && out@[i2].id as int == k by {
            let idx = choose|idx: int| 0 <= idx < all@.len() && all@[idx].0.id as int == k;
            assert(s.comments().contains_pair(
                all@[idx].0.id as int,
                (all@[idx].0.title@, all@[idx].1 as int, all@[idx].0.created_at@),
            ));
            assert(all@[idx].1 as int == task_id as int);
            assert(pc(all@[idx]));
            all@.lemma_filter_contains(pc, idx);
            assert(f.contains(all@[idx]));
            let p = choose|p: int| 0 <= p < f.len() && f[p] == all@[idx];
            assert(out@[p] == f[p].0);
            assert(out@[p].id as int == k);
        }
    }
    Ok(out)
}

/// Whether the chosen table holds a row with the given id.
pub open spec fn table_contains(s: Store, table: TableKind, k: int) -> bool {
    match table {
        TableKind::Boards => s.boards().contains_key(k),
        TableKind::Tasks => s.tasks().contains_key(k),
        TableKind::Comments => s.comments().contains_key(k),
    }
}

/// Removes the row with the given id from the chosen table, touching
/// nothing else. Deleting an id that is not present succeeds and leaves the
/// whole store unchanged, so callers need not check existence first.
pub fn delete_record_by_id(s: &mut Store, table: TableKind, id: u16) -> (r: Result<
    (),
    StoreError,
>)
    ensures
        r is Ok ==> match table {
            TableKind::Boards => {
                &&& final(s).boards() == old(s).boards().remove(id as int)
                &&& final(s).tasks() == old(s).tasks()
                &&& final(s).comments() == old(s).comments()
            },
            TableKind::Tasks => {
                &&& final(s).tasks() == old(s).tasks().remove(id as int)
                &&& final(s).boards() == old(s).boards()
                &&& final(s).comments() == old(s).comments()
            },
            TableKind::Comments => {
                &&& final(s).comments() == old(s).comments().remove(id as int)
                &&& final(s).boards() == old(s).boards()
                &&& final(s).tasks() == old(s).tasks()
            },
        },
        r is Ok && !table_contains(*old(s), table, id as int) ==> {
            &&& final(s).boards() == old(s).boards()
            &&& final(s).tasks() == old(s).tasks()
            &&& final(s).comments() == old(s).comments()
        },
        r is Err ==> {
            &&& r->Err_0 == StoreError::QueryFailure
            &&& final(s).boards() == old(s).boards()
            &&& final(s).tasks() == old(s).tasks()
            &&& final(s).comments() == old(s).comments()
        },
{
    let res = match table {
        TableKind::Boards => exec_delete_board(s, id),
        TableKind::Tasks => exec_delete_task(s, id),
        TableKind::Comments => exec_delete_comment(s, id),
    };
    proof {
        if !table_contains(*old(s), table, id as int) {
            match table {
                TableKind::Boards => {
                    lemma_remove_absent_is_identity(old(s).boards(), id as int);
                },
                TableKind::Tasks => {
                    lemma_remove_absent_is_identity(old(s).tasks(), id as int);
                },
                TableKind::Comments => {
                    lemma_remove_absent_is_identity(old(s).comments(), id as int);
                },
            }
        }
    }
    match res {
        Ok(_) => Ok(()),
        Err(_) => Err(StoreError::QueryFailure),
    }
}

/// Gives the board with the given id a new title; a board that does not
/// exist leaves the store unchanged. No other row or table is touched.
pub fn edit_board(s: &mut Store, id: u16, title: &str) -> (r: Result<(), StoreError>)
    ensures
        r is Ok ==> final(s).boards() == (if old(s).boards().contains_key(id as int) {
            old(s).boards().insert(id as int, title@)
        } else {
            old(s).boards()
        }),
        r is Err ==> r->Err_0 == StoreError::QueryFailure && final(s).boards() == old(s).boards(),
        final(s).tasks() == old(s).tasks(),
        final(s).comments() == old(s).comments(),
{
    match exec_update_board_title(s, id, title) {
        Ok(_) => Ok(()),
        Err(_) => Err(StoreError::QueryFailure),
    }
}

/// Sets the done flag of the task with the given id, keeping every other
/// column; a task that does not exist leaves the store unchanged. The flag
/// is a plain toggle: no state is terminal, a done task can be reverted.
pub fn switch_task_status(s: &mut Store, task_id: u16, done: bool) -> (r: Result<(), StoreError>)
    ensures
        r is Ok ==> final(s).tasks() == ({
            let m = old(s).tasks();
            if m.contains_key(task_id as int) {
                m.insert(
                    task_id as int,
                    (
                        m[task_id as int].0,
                        done,
                        m[task_id as int].2,
                        m[task_id as int].3,
                        m[task_id as int].4,
                    ),
                )
            } else {
                m
            }
        }),
        r is Err ==> r->Err_0 == StoreError::QueryFailure && final(s).tasks() == old(s).tasks(),
        final(s).boards() == old(s).boards(),
        final(s).comments() == old(s).comments(),
{
    match exec_update_task_done(s, task_id, done) {
        Ok(_) => Ok(()),
        Err(_) => Err(StoreError::QueryFailure),
    }
}

/// Sets the reminder string of the task with the given id, keeping every
/// other column; a task that does not exist leaves the store unchanged.
/// Callers validate the reminder before storing it.
pub fn set_reminder(s: &mut Store, task_id: u16, reminder: &str) -> (r: Result<(), StoreError>)
    ensures
        r is Ok ==> final(s).tasks() == ({
            let m = old(s).tasks();
            if m.contains_key(task_id as int) {
                m.insert(
                    task_id as int,
                    (
                        m[task_id as int].0,
                        m[task_id as int].1,
                        m[task_id as int].2,
                        m[task_id as int].3,
                        reminder@,
                    ),
                )
            } else {
                m
            }
        }),
        r is Err ==> r->Err_0 == StoreError::QueryFailure && final(s).tasks() == old(s).tasks(),
        final(s).boards() == old(s).boards(),
        final(s).comments() == old(s).comments(),
{
    match exec_update_task_reminder(s, task_id, reminder) {
        Ok(_) => Ok(()),
        Err(_) => Err(StoreError::QueryFailure),
    }
}

/// Inserts a new pending task (`done == false`) on an existing board. The
/// task's board must reference an existing board at creation time: a
/// missing board is refused and nothing changes. On success the store
/// assigns and returns an id not previously in use and the task table grows
/// by exactly one; boards and comments never change. On failure the task
/// table is unchanged, unless the store assigned an id beyond `u16`: then
/// the one new row stands under that out-of-range id.
pub fn create_task(
    s: &mut Store,
    title: &str,
    board_id: u16,
    created_at: &str,
    reminder: &str,
) -> (r: Result<u16, StoreError>)
    ensures
        r matches Ok(id) ==> {
            &&& old(s).boards().contains_key(board_id as int)
            &&& !old(s).tasks().contains_key(id as int)
            &&& final(s).tasks() == old(s).tasks().insert(
                id as int,
                (title@, false, board_id as int, created_at@, reminder@),
            )
            &&& final(s).tasks().len() == old(s).tasks().len() + 1
        },
        !old(s).boards().contains_key(board_id as int) ==> r is Err && final(s).tasks() == old(
            s,
        ).tasks(),
        r is Err ==> {
            &&& r->Err_0 == StoreError::QueryFailure
            &&& (final(s).tasks() == old(s).tasks() || (exists|k: int|
                {
                    &&& !(0 <= k <= u16::MAX)
                    &&& !old(s).tasks().contains_key(k)
                    &&& final(s).tasks() == old(s).tasks().insert(
                        k,
                        (title@, false, board_id as int, created_at@, reminder@),
                    )
                }))
        },
        final(s).boards() == old(s).boards(),
        final(s).comments() == old(s).comments(),
{
    let boards = match exec_query_boards(s) {
        Ok(v) => v,
        Err(_) => {
            return Err(StoreError::QueryFailure);
        },
    };
    let mut i: usize = 0;
    let mut found: bool = false;
    while i < boards.len()
        invariant
            i <= boards@.len(),
            boards_match(boards@, old(s).boards()),
            found <==> exists|j: int| 0 <= j < i && boards@[j].id == board_id,
        decreases boards@.len() - i,
    {
        if boards[i].id == board_id {
            found = true;
        }
        i += 1;
    }
    if !found {
        return Err(StoreError::QueryFailure);
    }
    match exec_insert_task(s, title, false, board_id, created_at, reminder) {
        Ok(id) => {
            if 0 <= id && id <= u16::MAX as i64 {
                proof {
                    lemma_insert_fresh_grows_by_one(
                        old(s).tasks(),
                        id as int,
                        (title@, false, board_id as int, created_at@, reminder@),
                    );
                }
                Ok(id as u16)
            } else {
                proof {
                    assert(final(s).tasks() == old(s).tasks().insert(
                        id as int,
                        (title@, false, board_id as int, created_at@, reminder@),
                    ));
                }
                Err(StoreError::QueryFailure)
            }
        },
        Err(_) => Err(StoreError::QueryFailure),
    }
}

/// Appends a new comment to an existing task. A missing task is refused and
/// nothing changes. On success the store assigns and returns an id not
/// previously in use and the comment table grows by exactly one; boards and
/// tasks never change. On failure the comment table is unchanged, unless
/// the store assigned an id beyond `u16`: then the one new row stands under
/// that out-of-range id.
pub fn create_comment(s: &mut Store, task_id: u16, title: &str, created_at: &str) -> (r: Result<
    u16,
    StoreError,
>)
    ensures
        r matches Ok(id) ==> {
            &&& old(s).tasks().contains_key(task_id as int)
            &&& !old(s).comments().contains_key(id as int)
            &&& final(s).comments() == old(s).comments().insert(
                id as int,
                (title@, task_id as int, created_at@),
            )
            &&& final(s).comments().len() == old(s).comments().len() + 1
        },
        !old(s).tasks().contains_key(task_id as int) ==> r is Err && final(s).comments() == old(
            s,
        ).comments(),
        r is Err ==> {
            &&& r->Err_0 == StoreError::QueryFailure
            &&& (final(s).comments() == old(s).comments() || (exists|k: int|
                {
                    &&& !(0 <= k <= u16::MAX)
                    &&& !old(s).comments().contains_key(k)
                    &&& final(s).comments() == old(s).comments().insert(
                        k,
                        (title@, task_id as int, created_at@),
                    )
                }))
        },
        final(s).boards() == old(s).boards(),
        final(s).tasks() == old(s).tasks(),
{
    let tasks = match exec_query_tasks(s) {
        Ok(v) => v,
        Err(_) => {
            return Err(StoreError::QueryFailure);
        },
    };
    let mut i: usize = 0;
    let mut found: bool = false;
    while i < tasks.len()
        invariant
            i <= tasks@.len(),
            tasks_match(tasks@, old(s).tasks()),
            found <==> exists|j: int| 0 <= j < i && tasks@[j].id == task_id,
        decreases tasks@.len() - i,
    {
        if tasks[i].id == task_id {
            found = true;
        }
        i += 1;
    }
    if !found {
        return Err(StoreError::QueryFailure);
    }
    match exec_insert_comment(s, title, task_id, created_at) {
        Ok(id) => {
            if 0 <= id && id <= u16::MAX as i64 {
                proof {
                    lemma_insert_fresh_grows_by_one(
                        old(s).comments(),
                        id as int,
                        (title@, task_id as int, created_at@),
                    );
                }
                Ok(id as u16)
            } else {
                proof {
                    assert(final(s).comments() == old(s).comments().insert(
                        id as int,
                        (title@, task_id as int, created_at@),
                    ));
                }
                Err(StoreError::QueryFailure)
            }
        },
        Err(_) => Err(StoreError::QueryFailure),
    }
}

} // verus!
