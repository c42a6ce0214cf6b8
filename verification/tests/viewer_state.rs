use sqlite_watch::paging::RowOrder;
use sqlite_watch::value::CellValue;
use sqlite_watch::viewer::{
    cell_label, list_failure_message, open_failure_message, table_failure_message, DatabaseLoad,
    ViewerState,
};

fn strings(items: &[&str]) -> Vec<String> {
    items.iter().map(|s| s.to_string()).collect()
}

fn opened(tables: &[&str]) -> ViewerState {
    let mut state = ViewerState::new();
    assert!(state.finish_database_load("data.db", DatabaseLoad::Listed(strings(tables))));
    state
}

/// Loads `table` with `total` rows, of which `rows` are the page read.
fn loaded(state: &mut ViewerState, table: &str, total: usize, rows: Vec<Vec<CellValue>>) -> String {
    assert!(state.start_table_load());
    state.record_row_count(total);
    let sql = state.page_query_for(table, &RowOrder::ByRowid);
    state.finish_table_load(table, strings(&["id", "name"]), rows);
    sql
}

fn people() -> Vec<Vec<CellValue>> {
    vec![
        vec![CellValue::Integer(1), CellValue::Text("bob".to_string())],
        vec![CellValue::Integer(22), CellValue::Null],
    ]
}

#[test]
fn new_browser_is_empty() {
    let state = ViewerState::new();
    assert!(!state.db_open());
    assert_eq!(state.current_table(), None);
    assert!(state.table_list().is_empty());
    assert_eq!(state.page_size(), 500);
    assert_eq!(state.current_page(), 0);
    assert_eq!(state.total_rows(), None);
    assert_eq!(state.error_message(), None);
    assert!(!state.inspector_open());
}

#[test]
fn database_listed() {
    let state = opened(&["a", "b"]);
    assert!(state.db_open());
    assert_eq!(state.table_list(), &strings(&["a", "b"]));
    assert_eq!(state.current_table(), None);
    assert_eq!(state.error_message(), None);
}

#[test]
fn database_open_failure_keeps_previous_database() {
    let mut state = opened(&["a"]);
    let adopted = state.finish_database_load("x.db", DatabaseLoad::OpenFailed("boom".to_string()));
    assert!(!adopted);
    assert!(state.db_open());
    assert_eq!(state.table_list(), &strings(&["a"]));
    assert_eq!(
        state.error_message(),
        Some("Failed to open database 'x.db': boom".to_string())
    );
}

#[test]
fn database_list_failure_message() {
    let mut state = ViewerState::new();
    assert!(!state.finish_database_load("x.db", DatabaseLoad::ListFailed("bad".to_string())));
    assert!(!state.db_open());
    assert_eq!(state.error_message(), Some("Failed to list tables: bad".to_string()));
}

#[test]
fn failure_messages() {
    assert_eq!(open_failure_message("p", "r"), "Failed to open database 'p': r");
    assert_eq!(list_failure_message("r"), "Failed to list tables: r");
    assert_eq!(table_failure_message("t", "r"), "Error loading table 't': r");
}

#[test]
fn table_load_without_database_does_nothing() {
    let mut state = ViewerState::new();
    assert!(!state.start_table_load());
    assert_eq!(state.current_table(), None);
}

#[test]
fn table_load_renders_rows() {
    let mut state = opened(&["people"]);
    let sql = loaded(&mut state, "people", 2, people());
    assert_eq!(sql, "SELECT * FROM \"people\" ORDER BY rowid LIMIT 500 OFFSET 0");
    assert_eq!(state.current_table(), Some("people".to_string()));
    assert_eq!(state.total_rows(), Some(2));
    assert_eq!(
        state.table_data(),
        &vec![strings(&["1", "bob"]), strings(&["22", "NULL"])]
    );
    assert_eq!(state.column_names(), &strings(&["id", "name"]));
    assert_eq!(state.row_summary(), "people (2 rows)");
    assert_eq!(state.page_label(), " Page 1 / 1 ");
}

#[test]
fn row_count_clamps_page_and_gives_offset() {
    let mut state = opened(&["t"]);
    state.choose_page_size(100);
    loaded(&mut state, "t", 1000, people());
    assert_eq!(state.last_page(), Some("t".to_string()));
    assert_eq!(state.current_page(), 9);
    assert!(state.start_table_load());
    // The table shrank to 250 rows: page 9 no longer exists, the last one is page 2.
    state.record_row_count(250);
    let sql = state.page_query_for("t", &RowOrder::ByRowid);
    assert_eq!(state.current_page(), 2);
    assert_eq!(sql, "SELECT * FROM \"t\" ORDER BY rowid LIMIT 100 OFFSET 200");
}

#[test]
fn row_summary_with_pages() {
    let mut state = opened(&["a"]);
    state.choose_page_size(50);
    loaded(&mut state, "a", 120, people());
    assert_eq!(state.display_page_count(), 3);
    assert_eq!(state.row_summary(), "a (page 1/3 — rows 1-2 of 120)");
    assert_eq!(state.page_label(), " Page 1 / 3 ");
    assert_eq!(state.next_page(), Some("a".to_string()));
    assert_eq!(state.row_summary(), "a (page 2/3 — rows 51-52 of 120)");
}

#[test]
fn row_summary_end_is_capped_by_total() {
    let mut state = opened(&["a"]);
    state.choose_page_size(50);
    let rows: Vec<Vec<CellValue>> = (0..50).map(|i| vec![CellValue::Integer(i)]).collect();
    loaded(&mut state, "a", 120, rows);
    state.last_page();
    assert_eq!(state.row_summary(), "a (page 3/3 — rows 101-120 of 120)");
}

#[test]
fn navigation() {
    let mut state = opened(&["a"]);
    state.choose_page_size(100);
    loaded(&mut state, "a", 450, people());
    assert_eq!(state.previous_page(), None);
    assert_eq!(state.first_page(), None);
    assert_eq!(state.next_page(), Some("a".to_string()));
    assert_eq!(state.current_page(), 1);
    assert_eq!(state.previous_page(), Some("a".to_string()));
    assert_eq!(state.current_page(), 0);
    assert_eq!(state.last_page(), Some("a".to_string()));
    assert_eq!(state.current_page(), 4);
    assert_eq!(state.next_page(), None);
    assert_eq!(state.last_page(), None);
    assert_eq!(state.current_page(), 4);
    assert_eq!(state.first_page(), Some("a".to_string()));
    assert_eq!(state.current_page(), 0);
}

#[test]
fn next_then_previous_returns() {
    let mut state = opened(&["a"]);
    state.choose_page_size(50);
    loaded(&mut state, "a", 495, people());
    state.next_page();
    state.next_page();
    let page = state.current_page();
    state.next_page();
    state.previous_page();
    assert_eq!(state.current_page(), page);
}

#[test]
fn only_first_thousand_rows_are_paged() {
    let mut state = opened(&["a"]);
    state.choose_page_size(1000);
    loaded(&mut state, "a", 50000, people());
    assert_eq!(state.display_page_count(), 1);
    assert_eq!(state.next_page(), None);
    state.choose_page_size(500);
    let sql = loaded(&mut state, "a", 50000, people());
    assert_eq!(sql, "SELECT * FROM \"a\" ORDER BY rowid LIMIT 500 OFFSET 0");
    assert_eq!(state.display_page_count(), 2);
    assert_eq!(state.last_page(), Some("a".to_string()));
    assert!(state.start_table_load());
    state.record_row_count(50000);
    let sql = state.page_query_for("a", &RowOrder::ByRowid);
    assert_eq!(sql, "SELECT * FROM \"a\" ORDER BY rowid LIMIT 500 OFFSET 500");
    assert_eq!(state.fetch_limit(), 500);
    assert_eq!(state.row_summary(), "a (page 2/2 — rows 501-502 of 50000)");
}

#[test]
fn quoted_and_keyed_page_sql() {
    let mut state = opened(&["a\"b"]);
    assert!(state.start_table_load());
    let order = RowOrder::ByKey(vec!["k".to_string()]);
    state.record_row_count(3);
    let sql = state.page_query_for("a\"b", &order);
    assert_eq!(sql, "SELECT * FROM \"a\"\"b\" ORDER BY \"k\" LIMIT 500 OFFSET 0");
}

#[test]
fn page_moves_without_table_reload_nothing() {
    let mut state = ViewerState::new();
    assert_eq!(state.choose_page_size(200), None);
    assert_eq!(state.page_size(), 200);
    assert_eq!(state.next_page(), None);
}

#[test]
fn select_table_resets_page_and_inspector() {
    let mut state = opened(&["a", "b"]);
    state.choose_page_size(50);
    loaded(&mut state, "a", 120, people());
    state.next_page();
    assert!(state.inspect_cell(0, 0));
    assert_eq!(state.select_table("b"), "b");
    assert_eq!(state.current_page(), 0);
    assert!(!state.inspector_open());
}

#[test]
fn refresh_targets_current_table() {
    let mut state = opened(&["a"]);
    assert_eq!(state.refresh_target(), None);
    loaded(&mut state, "a", 2, people());
    assert_eq!(state.refresh_target(), Some("a".to_string()));
}

#[test]
fn inspect_cell_opens_inspector() {
    let mut state = opened(&["people"]);
    loaded(&mut state, "people", 2, people());
    assert!(state.inspect_cell(0, 1));
    assert!(state.inspector_open());
    assert_eq!(state.inspector_title(), "people  •  row 1  •  'name' (TEXT)");
    assert_eq!(state.inspector_content(), "TEXT (3 chars):\nbob");
    assert!(state.inspect_cell(1, 0));
    assert_eq!(state.inspector_title(), "people  •  row 2  •  'id' (INTEGER)");
    assert_eq!(state.inspector_content(), "INTEGER: 22");
    state.close_inspector();
    assert!(!state.inspector_open());
}

#[test]
fn inspect_missing_cell_does_nothing() {
    let mut state = opened(&["people"]);
    loaded(&mut state, "people", 2, people());
    assert!(!state.inspect_cell(2, 0));
    assert!(!state.inspect_cell(0, 2));
    assert!(!state.inspector_open());
}

#[test]
fn table_failure_keeps_shown_table() {
    let mut state = opened(&["a", "b"]);
    loaded(&mut state, "a", 2, people());
    assert!(state.start_table_load());
    state.fail_table_load("b", "no such table: b");
    assert_eq!(
        state.error_message(),
        Some("Error loading table 'b': no such table: b".to_string())
    );
    assert_eq!(state.current_table(), Some("a".to_string()));
    assert_eq!(state.table_data().len(), 2);
    assert!(state.start_table_load());
    assert_eq!(state.error_message(), None);
}

#[test]
fn close_database_resets_but_keeps_page_size() {
    let mut state = opened(&["a"]);
    state.choose_page_size(50);
    loaded(&mut state, "a", 120, people());
    state.next_page();
    state.fail_table_load("a", "x");
    state.close_database();
    assert!(!state.db_open());
    assert_eq!(state.current_table(), None);
    assert!(state.table_list().is_empty());
    assert!(state.table_data().is_empty());
    assert!(state.column_names().is_empty());
    assert_eq!(state.total_rows(), None);
    assert_eq!(state.current_page(), 0);
    assert_eq!(state.error_message(), None);
    assert_eq!(state.page_size(), 50);
}

#[test]
fn reopening_resets_table_view() {
    let mut state = opened(&["a"]);
    loaded(&mut state, "a", 2, people());
    assert!(state.finish_database_load("other.db", DatabaseLoad::Listed(strings(&["z"]))));
    assert_eq!(state.current_table(), None);
    assert!(state.table_data().is_empty());
    assert_eq!(state.total_rows(), None);
    assert_eq!(state.table_list(), &strings(&["z"]));
}

#[test]
fn column_widths_take_the_widest_capped_cell() {
    let mut state = opened(&["a"]);
    let long = "y".repeat(60);
    loaded(
        &mut state,
        "a",
        3,
        vec![
            vec![CellValue::Integer(1), CellValue::Text("bob".to_string())],
            vec![CellValue::Integer(123456), CellValue::Text(long)],
            vec![CellValue::Null],
        ],
    );
    assert_eq!(state.column_widths(), vec![6, 40]);
}

#[test]
fn column_widths_count_bytes() {
    let mut state = opened(&["a"]);
    loaded(
        &mut state,
        "a",
        1,
        vec![vec![CellValue::Text("éé".to_string()), CellValue::Null]],
    );
    assert_eq!(state.column_widths(), vec![4, 4]);
}

#[test]
fn cell_labels_are_padded() {
    let widths = vec![2, 12];
    assert_eq!(cell_label("id", &widths, 0), "id      ");
    assert_eq!(cell_label("name", &widths, 1), "name        ");
    assert_eq!(cell_label("x", &widths, 7), "x       ");
    assert_eq!(cell_label("a longer text", &widths, 0), "a longer text");
}

#[test]
fn large_page_sizes_are_offered_and_capped() {
    let mut state = opened(&["a"]);
    assert_eq!(state.choose_page_size(2000), None);
    assert_eq!(state.page_size(), 2000);
    let sql = loaded(&mut state, "a", 3000, people());
    assert_eq!(sql, "SELECT * FROM \"a\" ORDER BY rowid LIMIT 1000 OFFSET 0");
    assert_eq!(state.display_page_count(), 1);
    assert_eq!(state.row_summary(), "a (3000 rows)");
    assert_eq!(state.choose_page_size(5000), Some("a".to_string()));
    assert_eq!(state.current_page(), 0);
    assert_eq!(state.fetch_limit(), 1000);
}
