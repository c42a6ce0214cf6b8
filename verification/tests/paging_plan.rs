use sqlite_watch::paging::{
    choose_row_order, count_pages, count_query, key_columns_query, offered_page_sizes, page_query,
    plan_page, table_list_query, without_rowid_query, RowOrder, DISPLAY_ROW_LIMIT,
};

#[test]
fn pages_round_up() {
    assert_eq!(count_pages(0, 5), 0);
    assert_eq!(count_pages(1, 5), 1);
    assert_eq!(count_pages(1000, 500), 2);
    assert_eq!(count_pages(1001, 500), 3);
    assert_eq!(count_pages(usize::MAX, 1), usize::MAX);
    assert_eq!(count_pages(usize::MAX, 2), usize::MAX / 2 + 1);
}

#[test]
fn offered_sizes_fetch_within_display_limit() {
    assert_eq!(offered_page_sizes(), vec![50, 100, 200, 500, 1000, 2000, 5000]);
    let plan = plan_page(9000, 5000, 0);
    assert!(plan.limit <= DISPLAY_ROW_LIMIT);
}

#[test]
fn plan_clamps_to_last_shown_page() {
    // 1001 rows, of which the first 1000 are shown: two pages of 500.
    let plan = plan_page(1001, 500, 5);
    assert_eq!(plan.page, 1);
    assert_eq!(plan.limit, 500);
    assert_eq!(plan.offset, 500);
}

#[test]
fn plan_keeps_page_inside_table() {
    let plan = plan_page(800, 500, 1);
    assert_eq!(plan.page, 1);
    assert_eq!(plan.offset, 500);
    assert_eq!(plan.limit, 500);
}

#[test]
fn plan_never_fetches_past_first_thousand_rows() {
    let plan = plan_page(5000, 300, 3);
    assert_eq!(plan.page, 3);
    assert_eq!(plan.offset, 900);
    assert_eq!(plan.limit, 100);
}

#[test]
fn plan_limits_large_page_sizes() {
    let plan = plan_page(6000, 5000, 0);
    assert_eq!(plan.limit, 1000);
    assert_eq!(plan.offset, 0);
    let plan = plan_page(25000, 0, 7);
    assert_eq!(plan.limit, 1000);
    assert_eq!(plan.page, 0);
    assert_eq!(plan.offset, 0);
}

#[test]
fn plan_of_empty_table_keeps_page_and_fetches_nothing_past_limit() {
    let plan = plan_page(0, 500, 3);
    assert_eq!(plan.page, 3);
    assert_eq!(plan.offset, 1500);
    assert_eq!(plan.limit, 0);
    let plan = plan_page(0, 500, 1);
    assert_eq!(plan.limit, 500);
}

#[test]
fn plan_offset_does_not_overflow() {
    let plan = plan_page(usize::MAX, usize::MAX, usize::MAX);
    assert_eq!(plan.page, 0);
    assert_eq!(plan.offset, 0);
    let plan = plan_page(0, 1000, usize::MAX);
    assert_eq!(plan.offset, (usize::MAX as u128) * 1000);
    assert_eq!(plan.limit, 0);
}

#[test]
fn count_sql_quotes_the_table() {
    assert_eq!(count_query("users"), "SELECT COUNT(*) FROM \"users\"");
    assert_eq!(count_query("a\"b"), "SELECT COUNT(*) FROM \"a\"\"b\"");
    assert_eq!(count_query("\""), "SELECT COUNT(*) FROM \"\"\"\"");
}

#[test]
fn page_sql_orders_by_rowid() {
    assert_eq!(
        page_query("t", &RowOrder::ByRowid, 50, 100),
        "SELECT * FROM \"t\" ORDER BY rowid LIMIT 50 OFFSET 100"
    );
    assert_eq!(
        page_query("my \"table\"", &RowOrder::ByRowid, 500, 0),
        "SELECT * FROM \"my \"\"table\"\"\" ORDER BY rowid LIMIT 500 OFFSET 0"
    );
}

#[test]
fn page_sql_orders_by_key() {
    let order = RowOrder::ByKey(vec!["k".to_string()]);
    assert_eq!(
        page_query("w", &order, 1000, 0),
        "SELECT * FROM \"w\" ORDER BY \"k\" LIMIT 1000 OFFSET 0"
    );
    let order = RowOrder::ByKey(vec!["a".to_string(), "b\"c".to_string()]);
    assert_eq!(
        page_query("w", &order, 10, 20),
        "SELECT * FROM \"w\" ORDER BY \"a\", \"b\"\"c\" LIMIT 10 OFFSET 20"
    );
    let order = RowOrder::ByKey(vec![]);
    assert_eq!(page_query("w", &order, 10, 0), "SELECT * FROM \"w\" LIMIT 10 OFFSET 0");
}

#[test]
fn row_order_choice() {
    assert!(matches!(choose_row_order(false, vec!["x".to_string()]), RowOrder::ByRowid));
    match choose_row_order(true, vec!["x".to_string()]) {
        RowOrder::ByKey(k) => assert_eq!(k, vec!["x".to_string()]),
        RowOrder::ByRowid => panic!("a WITHOUT ROWID table is ordered by its key"),
    }
}

#[test]
fn table_list_sql_skips_only_internal_tables() {
    assert_eq!(
        table_list_query(),
        "SELECT name FROM sqlite_master WHERE type='table' AND name NOT LIKE 'sqlite\\_%' ESCAPE '\\' ORDER BY name"
    );
    assert!(without_rowid_query().contains("pragma_table_list"));
    assert!(key_columns_query().contains("pragma_table_info"));
}
