//! The library's SQL run against real SQLite databases, the way the program reads them.
use rusqlite::{types::Value as SqlValue, Connection};
use sqlite_watch::paging::{
    choose_row_order, count_query, key_columns_query, table_list_query, without_rowid_query,
};
use sqlite_watch::value::CellValue;
use sqlite_watch::viewer::{DatabaseLoad, ViewerState};

fn to_cell(value: SqlValue) -> CellValue {
    match value {
        SqlValue::Null => CellValue::Null,
        SqlValue::Integer(i) => CellValue::Integer(i),
        SqlValue::Real(f) => CellValue::Real(f.to_string()),
        SqlValue::Text(t) => CellValue::Text(t),
        SqlValue::Blob(b) => CellValue::Blob(b),
    }
}

fn tables(conn: &Connection) -> Vec<String> {
    let mut stmt = conn.prepare(table_list_query()).unwrap();
    let names = stmt.query_map([], |row| row.get::<_, String>(0)).unwrap();
    names.collect::<rusqlite::Result<_>>().unwrap()
}

fn load(state: &mut ViewerState, conn: &mut Connection, table: &str) -> rusqlite::Result<()> {
    assert!(state.start_table_load());
    let tx = conn.transaction()?;
    let total: i64 = tx.query_row(&count_query(table), [], |row| row.get(0))?;
    state.record_row_count(total as usize);
    let without_rowid: i64 = tx.query_row(without_rowid_query(), [table], |row| row.get(0))?;
    let keys: Vec<String> = {
        let mut stmt = tx.prepare(key_columns_query())?;
        let names = stmt.query_map([table], |row| row.get::<_, String>(0))?;
        names.collect::<rusqlite::Result<_>>()?
    };
    let order = choose_row_order(without_rowid != 0, keys);
    let sql = state.page_query_for(table, &order);
    let mut stmt = tx.prepare(&sql)?;
    let columns: Vec<String> = stmt.column_names().into_iter().map(|s| s.to_string()).collect();
    let width = columns.len();
    let rows = stmt.query_map([], |row| {
        Ok((0..width)
            .map(|i| to_cell(row.get(i).unwrap_or(SqlValue::Null)))
            .collect::<Vec<_>>())
    })?;
    let rows: Vec<Vec<CellValue>> = rows.collect::<rusqlite::Result<_>>()?;
    drop(stmt);
    assert!(rows.len() <= state.fetch_limit());
    state.finish_table_load(table, columns, rows);
    Ok(())
}

fn open(batch: &str) -> (ViewerState, Connection) {
    let conn = Connection::open_in_memory().unwrap();
    conn.execute_batch(batch).unwrap();
    let mut state = ViewerState::new();
    assert!(state.finish_database_load(":memory:", DatabaseLoad::Listed(tables(&conn))));
    (state, conn)
}

#[test]
fn lists_tables_named_like_sqlite() {
    let (state, _conn) = open("CREATE TABLE SQLiteData(x); CREATE TABLE b(y); CREATE TABLE sqliteXstats(z);");
    assert_eq!(
        state.table_list(),
        &vec!["SQLiteData".to_string(), "b".to_string(), "sqliteXstats".to_string()]
    );
}

#[test]
fn hides_internal_tables() {
    let (state, _conn) = open("CREATE TABLE t(x INTEGER PRIMARY KEY AUTOINCREMENT, y); ANALYZE;");
    assert_eq!(state.table_list(), &vec!["t".to_string()]);
}

#[test]
fn views_table_with_quote_in_name() {
    let (mut state, mut conn) = open(r#"CREATE TABLE [a"b](x); INSERT INTO [a"b] VALUES (1);"#);
    assert_eq!(state.table_list(), &vec!["a\"b".to_string()]);
    load(&mut state, &mut conn, "a\"b").unwrap();
    assert_eq!(state.table_data(), &vec![vec!["1".to_string()]]);
    assert_eq!(state.current_table(), Some("a\"b".to_string()));
}

#[test]
fn views_without_rowid_table() {
    let (mut state, mut conn) = open(
        "CREATE TABLE w(k PRIMARY KEY, v) WITHOUT ROWID; INSERT INTO w VALUES (2, 'b'); INSERT INTO w VALUES (1, 'a');",
    );
    load(&mut state, &mut conn, "w").unwrap();
    assert_eq!(
        state.table_data(),
        &vec![
            vec!["1".to_string(), "a".to_string()],
            vec!["2".to_string(), "b".to_string()]
        ]
    );
}

#[test]
fn views_rowid_table_in_rowid_order() {
    let (mut state, mut conn) = open(
        "CREATE TABLE t(name TEXT, v BLOB); INSERT INTO t VALUES ('z', x'00ff'); INSERT INTO t VALUES ('a', NULL);",
    );
    load(&mut state, &mut conn, "t").unwrap();
    assert_eq!(
        state.table_data(),
        &vec![
            vec!["z".to_string(), "[BLOB] 00 FF".to_string()],
            vec!["a".to_string(), "NULL".to_string()]
        ]
    );
    assert_eq!(state.total_rows(), Some(2));
}

#[test]
fn shows_at_most_first_thousand_rows() {
    let (mut state, mut conn) = open(
        "CREATE TABLE n(i); WITH RECURSIVE c(x) AS (SELECT 1 UNION ALL SELECT x + 1 FROM c WHERE x < 2500) INSERT INTO n SELECT x FROM c;",
    );
    state.choose_page_size(1000);
    load(&mut state, &mut conn, "n").unwrap();
    assert_eq!(state.total_rows(), Some(2500));
    assert_eq!(state.table_data().len(), 1000);
    assert_eq!(state.table_data()[999], vec!["1000".to_string()]);
    assert_eq!(state.display_page_count(), 1);
    state.choose_page_size(200);
    load(&mut state, &mut conn, "n").unwrap();
    assert_eq!(state.last_page(), Some("n".to_string()));
    load(&mut state, &mut conn, "n").unwrap();
    assert_eq!(state.current_page(), 4);
    assert_eq!(state.table_data().len(), 200);
    assert_eq!(state.table_data()[199], vec!["1000".to_string()]);
}

#[test]
fn missing_table_is_an_error() {
    let (mut state, mut conn) = open("CREATE TABLE t(x);");
    let err = load(&mut state, &mut conn, "nope").unwrap_err();
    state.fail_table_load("nope", &err.to_string());
    assert!(state.error_message().unwrap().starts_with("Error loading table 'nope': "));
}

#[test]
fn page_size_5000_shows_first_thousand_rows() {
    let (mut state, mut conn) = open(
        "CREATE TABLE n(i); WITH RECURSIVE c(x) AS (SELECT 1 UNION ALL SELECT x + 1 FROM c WHERE x < 6000) INSERT INTO n SELECT x FROM c;",
    );
    assert_eq!(state.choose_page_size(5000), None);
    assert_eq!(state.page_size(), 5000);
    load(&mut state, &mut conn, "n").unwrap();
    assert_eq!(state.table_data().len(), 1000);
    assert_eq!(state.table_data()[0], vec!["1".to_string()]);
    assert_eq!(state.table_data()[999], vec!["1000".to_string()]);
    assert_eq!(state.display_page_count(), 1);
}

#[test]
fn reloading_twice_equals_reloading_once() {
    let (mut state, mut conn) = open("CREATE TABLE t(x); INSERT INTO t VALUES (1); INSERT INTO t VALUES (2);");
    load(&mut state, &mut conn, "t").unwrap();
    let data = state.table_data().clone();
    let page = state.current_page();
    load(&mut state, &mut conn, "t").unwrap();
    assert_eq!(state.table_data(), &data);
    assert_eq!(state.current_page(), page);
    assert_eq!(state.total_rows(), Some(2));
    assert_eq!(state.current_table(), Some("t".to_string()));
}
