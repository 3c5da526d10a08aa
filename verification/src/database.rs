//! The tag store: tags, files and their associations, kept in a relational
//! database.  Every call into the database driver stands behind a trusted
//! wrapper; the decisions around those calls are verified.

use vstd::prelude::*;
use crate::errors::ApiError;

verus! {

/// A tag, optionally nested under a parent tag.
pub struct Tag {
    pub id: i32,
    pub name: String,
    pub parent_id: Option<i32>,
}

/// A file registered with the tag store.
pub struct File {
    pub id: i32,
    pub name: String,
    pub file_path: String,
}

#[verifier::external_type_specification]
#[verifier::external_body]
pub struct ExConnection(rusqlite::Connection);

/// Relies on `rusqlite::Connection::open`: opens the database at `path`,
/// a relative path being resolved against the working directory.
#[verifier::external_body]
fn open_connection(path: &str) -> (r: Result<rusqlite::Connection, ApiError>)
    ensures
        r matches Err(e) ==> e is ConnectionError,
{
    rusqlite::Connection::open(path).map_err(|e| ApiError::ConnectionError(e.to_string()))
}

/// Opens the tag database kept beside the sources.
fn establish_connection() -> (r: Result<rusqlite::Connection, ApiError>)
    ensures
        r matches Err(e) ==> e is ConnectionError,
{
    open_connection("src/database/database.db")
}

/// Relies on `rusqlite::Connection::execute`: runs `sql` with a text and an
/// optional integer as parameters, returning how many rows changed.
#[verifier::external_body]
fn execute_text_optint(
    conn: &rusqlite::Connection,
    sql: &str,
    a: &str,
    b: &Option<i32>,
) -> (r: Result<usize, ApiError>)
    ensures
        r matches Err(e) ==> e is QueryError,
{
    conn.execute(sql, (a, b)).map_err(|e| ApiError::QueryError(e.to_string()))
}

/// Relies on `rusqlite::Connection::execute`: runs `sql` with a text, an
/// optional integer and an integer as parameters, returning how many rows
/// changed.
#[verifier::external_body]
fn execute_text_optint_int(
    conn: &rusqlite::Connection,
    sql: &str,
    a: &str,
    b: &Option<i32>,
    c: i32,
) -> (r: Result<usize, ApiError>)
    ensures
        r matches Err(e) ==> e is QueryError,
{
    conn.execute(sql, (a, b, c)).map_err(|e| ApiError::QueryError(e.to_string()))
}

/// Relies on `rusqlite::Connection::execute`: runs `sql` with one integer
/// parameter, returning how many rows changed.
#[verifier::external_body]
fn execute_int(conn: &rusqlite::Connection, sql: &str, a: i32) -> (r: Result<usize, ApiError>)
    ensures
        r matches Err(e) ==> e is QueryError,
{
    conn.execute(sql, (a,)).map_err(|e| ApiError::QueryError(e.to_string()))
}

/// Relies on `rusqlite::Connection::execute`: runs `sql` with two text
/// parameters, returning how many rows changed.
#[verifier::external_body]
fn execute_text_text(
    conn: &rusqlite::Connection,
    sql: &str,
    a: &str,
    b: &str,
) -> (r: Result<usize, ApiError>)
    ensures
        r matches Err(e) ==> e is QueryError,
{
    conn.execute(sql, (a, b)).map_err(|e| ApiError::QueryError(e.to_string()))
}

/// Relies on `rusqlite::Connection::execute`: runs `sql` with two integer
/// parameters, returning how many rows changed.
#[verifier::external_body]
fn execute_int_int(
    conn: &rusqlite::Connection,
    sql: &str,
    a: i32,
    b: i32,
) -> (r: Result<usize, ApiError>)
    ensures
        r matches Err(e) ==> e is QueryError,
{
    conn.execute(sql, (a, b)).map_err(|e| ApiError::QueryError(e.to_string()))
}

/// Relies on `rusqlite::Connection::query_row`: runs `sql` with one text
/// parameter and reads the first column of the first row as an integer.
#[verifier::external_body]
fn query_single_id(conn: &rusqlite::Connection, sql: &str, a: &str) -> (r: Result<i32, ApiError>)
    ensures
        r matches Err(e) ==> e is QueryError,
{
    conn.query_row(sql, (a,), |row| row.get(0)).map_err(|e| ApiError::QueryError(e.to_string()))
}

/// Relies on `rusqlite::Connection::last_insert_rowid`: the row id of the
/// most recent successful insert on this connection.
#[verifier::external_body]
fn last_insert_rowid(conn: &rusqlite::Connection) -> i64 {
    conn.last_insert_rowid()
}

/// Relies on `rusqlite::Connection::prepare` and
/// `rusqlite::Statement::query_map`: runs `sql` without parameters and reads
/// every row as a tag of id, name and parent id; rows that fail to decode
/// are dropped.
#[verifier::external_body]
fn fetch_tags(conn: &rusqlite::Connection, sql: &str) -> (r: Result<Vec<Tag>, ApiError>)
    ensures
        r matches Err(e) ==> e is QueryError,
{
    let mut stmt = match conn.prepare(sql) {
        Ok(stmt) => stmt,
        Err(e) => return Err(ApiError::QueryError(e.to_string())),
    };
    let rows = stmt.query_map([], |row| {
        Ok(Tag { id: row.get(0)?, name: row.get(1)?, parent_id: row.get(2)? })
    });
    match rows {
        Ok(iter) => Ok(iter.filter_map(Result::ok).collect()),
        Err(e) => Err(ApiError::QueryError(e.to_string())),
    }
}

/// Relies on `rusqlite::Connection::prepare`,
/// `rusqlite::Statement::query_map` and `rusqlite::params_from_iter`: runs
/// `sql` with the given integers as parameters and reads every row as a
/// file of id, name and path; rows that fail to decode are dropped.
#[verifier::external_body]
fn fetch_files(conn: &rusqlite::Connection, sql: &str, ids: &Vec<i32>) -> (r: Result<
    Vec<File>,
    ApiError,
>)
    ensures
        r matches Err(e) ==> e is QueryError,
{
    let mut stmt = match conn.prepare(sql) {
        Ok(stmt) => stmt,
        Err(e) => return Err(ApiError::QueryError(e.to_string())),
    };
    let rows = stmt.query_map(rusqlite::params_from_iter(ids.iter()), |row| {
        Ok(File { id: row.get(0)?, name: row.get(1)?, file_path: row.get(2)? })
    });
    match rows {
        Ok(iter) => Ok(iter.filter_map(Result::ok).collect()),
        Err(e) => Err(ApiError::QueryError(e.to_string())),
    }
}

/// What the decimal rendering of an integer looks like.
pub uninterp spec fn decimal_of(n: int) -> Seq<char>;

/// The text telling that no tag carries the given identifier.
pub open spec fn tag_missing_text(tag_id: int) -> Seq<char> {
    "Tag with ID "@ + decimal_of(tag_id) + " not found"@
}

/// Relies on the `format` macro of std rendering an `i32` in decimal.
#[verifier::external_body]
fn tag_not_found_message(tag_id: i32) -> (r: String)
    ensures
        r@ == "Tag with ID "@ + decimal_of(tag_id as int) + " not found"@,
{
    format!("Tag with ID {} not found", tag_id)
}

/// What an update or delete of one tag returns, given how many rows it
/// changed: success if and only if a row changed; otherwise the tag was not
/// found.
pub fn tag_rows_outcome(affected: usize, tag_id: i32) -> (r: Result<(), ApiError>)
    ensures
        affected != 0 <==> r is Ok,
        affected == 0 ==> (r matches Err(e) && e matches ApiError::NotFound(m) && m@
            == tag_missing_text(tag_id as int)),
{
    if affected == 0 {
        Err(ApiError::NotFound(tag_not_found_message(tag_id)))
    } else {
        Ok(())
    }
}

/// Creates one tag, optionally under a parent.  Failures come only from the
/// connection or the statement.
pub fn create_tag(name: String, parent_id: Option<i32>) -> (r: Result<(), ApiError>)
    ensures
        r matches Err(e) ==> (e is ConnectionError || e is QueryError),
{
    let conn = match establish_connection() {
        Ok(conn) => conn,
        Err(e) => return Err(e),
    };
    match execute_text_optint(
        &conn,
        "INSERT INTO tags (name, parent_id) VALUES (?1, ?2)",
        name.as_str(),
        &parent_id,
    ) {
        Ok(_) => Ok(()),
        Err(e) => Err(e),
    }
}

/// Reads every tag.  Failures come only from the connection or the query.
pub fn get_tags() -> (r: Result<Vec<Tag>, ApiError>)
    ensures
        r matches Err(e) ==> (e is ConnectionError || e is QueryError),
{
    let conn = match establish_connection() {
        Ok(conn) => conn,
        Err(e) => return Err(e),
    };
    fetch_tags(&conn, "SELECT id, name, parent_id FROM tags")
}

/// Reads every tag, for hierarchical presentation.  Failures come only from
/// the connection or the query.
pub fn get_tags_hierarchically() -> (r: Result<Vec<Tag>, ApiError>)
    ensures
        r matches Err(e) ==> (e is ConnectionError || e is QueryError),
{
    let conn = match establish_connection() {
        Ok(conn) => conn,
        Err(e) => return Err(e),
    };
    fetch_tags(&conn, "SELECT id, name, parent_id FROM tags")
}

/// Renames one tag and moves it under a new parent.  A tag the store does
/// not hold is reported as not found.
pub fn update_tag(tag_id: i32, new_name: String, new_parent_id: Option<i32>) -> (r: Result<
    (),
    ApiError,
>)
    ensures
        r matches Err(e) ==> (e is ConnectionError || e is QueryError || (e matches
            ApiError::NotFound(m) && m@ == tag_missing_text(tag_id as int))),
{
    let conn = match establish_connection() {
        Ok(conn) => conn,
        Err(e) => return Err(e),
    };
    let affected = match execute_text_optint_int(
        &conn,
        "UPDATE tags SET name = ?1, parent_id = ?2 WHERE id = ?3",
        new_name.as_str(),
        &new_parent_id,
        tag_id,
    ) {
        Ok(affected) => affected,
        Err(e) => return Err(e),
    };
    tag_rows_outcome(affected, tag_id)
}

/// Deletes one tag.  A tag the store does not hold is reported as not
/// found.
pub fn delete_tag(tag_id: i32) -> (r: Result<(), ApiError>)
    ensures
        r matches Err(e) ==> (e is ConnectionError || e is QueryError || (e matches
            ApiError::NotFound(m) && m@ == tag_missing_text(tag_id as int))),
{
    let conn = match establish_connection() {
        Ok(conn) => conn,
        Err(e) => return Err(e),
    };
    let affected = match execute_int(&conn, "DELETE FROM tags WHERE id = ?1", tag_id) {
        Ok(affected) => affected,
        Err(e) => return Err(e),
    };
    tag_rows_outcome(affected, tag_id)
}

/// Registers one file and returns its fresh identifier.  A failure is
/// reported as its display text, never empty.
pub fn register_file(name: String, path: String) -> (r: Result<i32, String>)
    ensures
        r matches Err(m) ==> m@.len() > 0,
{
    let conn = match establish_connection() {
        Ok(conn) => conn,
        Err(e) => return Err(e.message()),
    };
    match execute_text_text(
        &conn,
        "INSERT INTO files (name, path) VALUES (?1, ?2)",
        name.as_str(),
        path.as_str(),
    ) {
        Ok(_) => {},
        Err(e) => return Err(e.message()),
    }
    let last_id = last_insert_rowid(&conn);
    Ok(#[verifier::truncate] (last_id as i32))
}

/// Associates tags with a file, registering the file first if the store
/// does not hold its path yet.  A failure is reported as its display text,
/// never empty.
pub fn tag_file(name: String, path: String, tag_ids: Vec<i32>) -> (r: Result<(), String>)
    ensures
        r matches Err(m) ==> m@.len() > 0,
{
    let conn = match establish_connection() {
        Ok(conn) => conn,
        Err(e) => return Err(e.message()),
    };
    let file_id: i32 = match query_single_id(
        &conn,
        "SELECT id FROM files WHERE path = ?1",
        path.as_str(),
    ) {
        Ok(id) => id,
        Err(_) => {
            match execute_text_text(
                &conn,
                "INSERT INTO files (name, path) VALUES (?1, ?2)",
                name.as_str(),
                path.as_str(),
            ) {
                Ok(_) => {},
                Err(e) => return Err(e.message()),
            }
            let last_id = last_insert_rowid(&conn);
            #[verifier::truncate] (last_id as i32)
        },
    };
    let mut i: usize = 0;
    while i < tag_ids.len()
        invariant
            0 <= i <= tag_ids.len(),
        decreases tag_ids.len() - i,
    {
        match execute_int_int(
            &conn,
            "INSERT OR IGNORE INTO tagged_files (file_id, tag_id) VALUES (?1, ?2)",
            file_id,
            tag_ids[i],
        ) {
            Ok(_) => {},
            Err(e) => return Err(e.message()),
        }
        i += 1;
    }
    Ok(())
}

/// One question mark for each of `n` placeholders, joined by commas.
pub open spec fn placeholders_text(n: int) -> Seq<char>
    decreases n,
{
    if n <= 0 {
        Seq::empty()
    } else if n == 1 {
        "?"@
    } else {
        placeholders_text(n - 1) + ",?"@
    }
}

/// Builds the placeholder list of a query over `n` parameters.
pub fn placeholders(n: usize) -> (r: String)
    ensures
        r@ == placeholders_text(n as int),
{
    let mut out = String::new();
    let mut i: usize = 0;
    while i < n
        invariant
            0 <= i <= n,
            out@ == placeholders_text(i as int),
        decreases n - i,
    {
        if i == 0 {
            out.append("?");
            proof {
                assert(Seq::<char>::empty() + "?"@ =~= "?"@);
            }
        } else {
            out.append(",?");
        }
        i += 1;
    }
    out
}

/// The text of the query that finds the files carrying any of `n` tags.
pub open spec fn files_by_tags_query_text(n: int) -> Seq<char> {
    "SELECT DISTINCT f.id, f.name, f.file_path FROM files f INNER JOIN tagged_files tf ON f.id = tf.file_id WHERE tf.tag_id IN ("@
        + placeholders_text(n) + ")"@
}

/// Finds every file associated with at least one of the given tags.  A
/// failure is reported as its display text, never empty.
pub fn search_files_by_tags(tag_ids: Vec<i32>) -> (r: Result<Vec<File>, String>)
    ensures
        r matches Err(m) ==> m@.len() > 0,
{
    let conn = match establish_connection() {
        Ok(conn) => conn,
        Err(e) => return Err(e.message()),
    };
    let mut sql = String::from_str(
        "SELECT DISTINCT f.id, f.name, f.file_path FROM files f INNER JOIN tagged_files tf ON f.id = tf.file_id WHERE tf.tag_id IN (",
    );
    sql.append(placeholders(tag_ids.len()).as_str());
    sql.append(")");
    proof {
        assert(sql@ == files_by_tags_query_text(tag_ids.len() as int));
    }
    match fetch_files(&conn, sql.as_str(), &tag_ids) {
        Ok(files) => Ok(files),
        Err(e) => Err(e.message()),
    }
}

} // verus!
