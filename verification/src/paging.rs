//! How a table is cut into pages, and the SQL that lists tables, counts rows and fetches a page.
//!
//! The display is limited to the first thousand rows of a table: pages hold at most that many
//! rows and never reach past them.
use vstd::prelude::*;
use crate::text::{
    decimal, min_nat, push_decimal, push_quoted_identifier, quoted_identifier,
    strings_view,
};

verus! {

/// The display shows at most the first this many rows of a table.
pub const DISPLAY_ROW_LIMIT: usize = 1000;

/// Whether `size` is one of the page sizes the browser offers (a load still fetches at most the
/// display limit of rows).
pub open spec fn is_offered_page_size(size: usize) -> bool {
    size == 50 || size == 100 || size == 200 || size == 500 || size == 1000 || size == 2000
        || size == 5000
}

/// The page size that a load uses: the chosen one, up to the display limit (which a size of
/// zero also stands for).
pub open spec fn effective_page_size(page_size: usize) -> nat {
    if page_size == 0 || page_size > DISPLAY_ROW_LIMIT {
        DISPLAY_ROW_LIMIT as nat
    } else {
        page_size as nat
    }
}

/// How many rows of a table of `total` rows the display can show.
pub open spec fn shown_rows(total: nat) -> nat {
    min_nat(total, DISPLAY_ROW_LIMIT as nat)
}

/// The number of pages that `total` rows fill, `page_size` (non-zero) rows a page.
pub open spec fn page_count(total: nat, page_size: nat) -> nat
    recommends
        page_size > 0,
{
    ((total + page_size - 1) as nat) / page_size
}

/// The page that a load shows when `page` was asked for: the last page of the shown rows when
/// `page` lies beyond it, `page` itself otherwise (also when the table has no rows).
pub open spec fn clamped_page(total: nat, page_size: usize, page: nat) -> nat {
    let pages = page_count(shown_rows(total), effective_page_size(page_size));
    if pages > 0 && page >= pages {
        (pages - 1) as nat
    } else {
        page
    }
}

/// The number of rows a load of `page` fetches at most: a page, but nothing past the first
/// thousand rows.
pub open spec fn page_limit(page_size: usize, page: nat) -> nat {
    let size = effective_page_size(page_size);
    let offset = page * size;
    if offset < DISPLAY_ROW_LIMIT {
        min_nat(size, (DISPLAY_ROW_LIMIT - offset) as nat)
    } else {
        0
    }
}

/// The SQL that lists the user tables of a database, by name. Only SQLite's own tables, whose
/// names start with `sqlite_` (a prefix SQLite reserves, in any case), are left out: the
/// underscore is escaped so that it matches only itself.
pub open spec fn table_list_sql() -> Seq<char> {
    "SELECT name FROM sqlite_master WHERE type='table' AND name NOT LIKE 'sqlite\\_%' ESCAPE '\\' ORDER BY name"@
}

/// The SQL that tells (1 or 0) whether the table named by parameter 1 is a WITHOUT ROWID table.
pub open spec fn without_rowid_sql() -> Seq<char> {
    "SELECT COALESCE(MAX(wr), 0) FROM pragma_table_list WHERE schema = 'main' AND name = ?1"@
}

/// The SQL that lists the primary key columns of the table named by parameter 1, in key order.
pub open spec fn key_columns_sql() -> Seq<char> {
    "SELECT name FROM pragma_table_info(?1) WHERE pk > 0 ORDER BY pk"@
}

/// The SQL that counts the rows of `table`.
pub open spec fn count_sql(table: Seq<char>) -> Seq<char> {
    "SELECT COUNT(*) FROM "@ + quoted_identifier(table)
}

/// The order in which a table's rows are paged.
pub enum RowOrder {
    /// By rowid, for a table that has one.
    ByRowid,
    /// By these primary key columns, for a WITHOUT ROWID table.
    ByKey(Vec<String>),
}

/// The columns, quoted and separated by commas.
pub open spec fn column_list(columns: Seq<Seq<char>>) -> Seq<char>
    decreases columns.len(),
{
    if columns.len() == 0 {
        seq![]
    } else if columns.len() == 1 {
        quoted_identifier(columns[0])
    } else {
        column_list(columns.drop_last()) + ", "@ + quoted_identifier(columns.last())
    }
}

/// The `ORDER BY` clause of a page's SQL (nothing for a key with no columns).
pub open spec fn order_clause(order: RowOrder) -> Seq<char> {
    match order {
        RowOrder::ByRowid => " ORDER BY rowid"@,
        RowOrder::ByKey(columns) => if columns@.len() == 0 {
            seq![]
        } else {
            " ORDER BY "@ + column_list(strings_view(columns@))
        },
    }
}

/// The SQL that fetches `limit` rows of `table` in `order`, skipping the first `offset`.
pub open spec fn page_sql(table: Seq<char>, order: RowOrder, limit: nat, offset: nat) -> Seq<char> {
    "SELECT * FROM "@ + quoted_identifier(table) + order_clause(order) + " LIMIT "@ + decimal(limit)
        + " OFFSET "@ + decimal(offset)
}

/// Which rows one load fetches.
pub struct PagePlan {
    /// The page shown, after clamping.
    pub page: usize,
    /// The number of rows the load fetches at most.
    pub limit: usize,
    /// The number of rows before the page.
    pub offset: u128,
}

/// The page sizes the browser offers, smallest first.
pub fn offered_page_sizes() -> (sizes: Vec<usize>)
    ensures
        sizes@ == seq![50usize, 100, 200, 500, 1000, 2000, 5000],
        forall|i: int| 0 <= i < sizes@.len() ==> is_offered_page_size(#[trigger] sizes@[i]),
{
    let sizes = vec![50, 100, 200, 500, 1000, 2000, 5000];
    assert(sizes@ =~= seq![50usize, 100, 200, 500, 1000, 2000, 5000]);
    sizes
}

/// The page size that a load uses: the chosen one, up to the display limit.
pub fn effective_size(page_size: usize) -> (size: usize)
    ensures
        size as nat == effective_page_size(page_size),
        1 <= size <= DISPLAY_ROW_LIMIT,
{
    if page_size == 0 || page_size > DISPLAY_ROW_LIMIT {
        DISPLAY_ROW_LIMIT
    } else {
        page_size
    }
}

/// How many rows of a table of `total` rows the display can show.
pub fn shown_row_count(total: usize) -> (shown: usize)
    ensures
        shown as nat == shown_rows(total as nat),
{
    if total < DISPLAY_ROW_LIMIT {
        total
    } else {
        DISPLAY_ROW_LIMIT
    }
}

/// `ceil(total / page_size)` by `(total + page_size - 1) / page_size`, computed without overflow.
pub fn count_pages(total: usize, page_size: usize) -> (pages: usize)
    requires
        page_size > 0,
    ensures
        pages as nat == page_count(total as nat, page_size as nat),
{
    let q = total / page_size;
    let r = total % page_size;
    proof {
        lemma_page_count_by_remainder(total as nat, page_size as nat);
    }
    if r == 0 {
        q
    } else {
        q + 1
    }
}

/// `ceil(a / b)` is the quotient, plus one when the division leaves a remainder.
pub proof fn lemma_page_count_by_remainder(a: nat, b: nat)
    requires
        b > 0,
    ensures
        page_count(a, b) == a / b + (if a % b == 0 {
            0nat
        } else {
            1nat
        }),
        a / b <= a,
        a % b != 0 ==> a / b < a,
{
    let q = a / b;
    let r = a % b;
    assert(a == b * q + r && 0 <= r < b) by (nonlinear_arith)
        requires
            b > 0,
            q == a / b,
            r == a % b,
    ;
    let n = (a + b - 1) as nat;
    if r == 0 {
        assert(n / b == q) by (nonlinear_arith)
            requires
                b > 0,
                n == b * q + (b - 1),
        ;
    } else {
        assert(b * (q + 1) == b * q + b) by (nonlinear_arith);
        assert(n / b == q + 1) by (nonlinear_arith)
            requires
                b > 0,
                n == b * (q + 1) + (r - 1),
                0 <= r - 1 < b,
        ;
    }
    assert(q <= a && (r != 0 ==> q < a)) by (nonlinear_arith)
        requires
            b > 0,
            a == b * q + r,
            r >= 0,
            q >= 0,
    ;
}

/// Decides which rows a load fetches, given the table's row count, the chosen page size and the
/// page asked for: the page is clamped to the last page of the shown rows, the offset is the
/// page times the page size, and the limit is a page but nothing past the first thousand rows.
pub fn plan_page(total: usize, page_size: usize, page: usize) -> (plan: PagePlan)
    ensures
        plan.page as nat == clamped_page(total as nat, page_size, page as nat),
        plan.offset as nat == plan.page as nat * effective_page_size(page_size),
        plan.limit as nat == page_limit(page_size, plan.page as nat),
{
    let size = effective_size(page_size);
    let shown = shown_row_count(total);
    let pages = count_pages(shown, size);
    let clamped = if pages > 0 && page >= pages {
        pages - 1
    } else {
        page
    };
    assert(clamped as u128 * size as u128 <= u128::MAX) by (nonlinear_arith)
        requires
            clamped <= u64::MAX,
            size <= u64::MAX,
    ;
    let offset: u128 = clamped as u128 * size as u128;
    let limit: usize = if offset < DISPLAY_ROW_LIMIT as u128 {
        let rest = DISPLAY_ROW_LIMIT - offset as usize;
        if size < rest {
            size
        } else {
            rest
        }
    } else {
        0
    };
    PagePlan { page: clamped, limit, offset }
}

/// The order to page a table in: by rowid, or by its primary key when it is a WITHOUT ROWID
/// table (which has no rowid).
pub fn choose_row_order(without_rowid: bool, key_columns: Vec<String>) -> (order: RowOrder)
    ensures
        without_rowid ==> order == RowOrder::ByKey(key_columns),
        !without_rowid ==> order == RowOrder::ByRowid,
{
    if without_rowid {
        RowOrder::ByKey(key_columns)
    } else {
        RowOrder::ByRowid
    }
}

/// The SQL that lists the user tables of a database, in name order.
pub fn table_list_query() -> (sql: &'static str)
    ensures
        sql@ == table_list_sql(),
{
    "SELECT name FROM sqlite_master WHERE type='table' AND name NOT LIKE 'sqlite\\_%' ESCAPE '\\' ORDER BY name"
}

/// The SQL that tells whether a table (parameter 1) is a WITHOUT ROWID table.
pub fn without_rowid_query() -> (sql: &'static str)
    ensures
        sql@ == without_rowid_sql(),
{
    "SELECT COALESCE(MAX(wr), 0) FROM pragma_table_list WHERE schema = 'main' AND name = ?1"
}

/// The SQL that lists the primary key columns of a table (parameter 1), in key order.
pub fn key_columns_query() -> (sql: &'static str)
    ensures
        sql@ == key_columns_sql(),
{
    "SELECT name FROM pragma_table_info(?1) WHERE pk > 0 ORDER BY pk"
}

/// The SQL that counts the rows of `table`: `SELECT COUNT(*) FROM "<table>"`, with each double
/// quote in the name doubled.
pub fn count_query(table: &str) -> (sql: String)
    ensures
        sql@ == count_sql(table@),
{
    let mut sql = String::new();
    sql.append("SELECT COUNT(*) FROM ");
    push_quoted_identifier(&mut sql, table);
    sql
}

/// Appends the `ORDER BY` clause for `order`.
fn push_order_clause(sql: &mut String, order: &RowOrder)
    ensures
        final(sql)@ == old(sql)@ + order_clause(*order),
{
    match order {
        RowOrder::ByRowid => {
            sql.append(" ORDER BY rowid");
        },
        RowOrder::ByKey(columns) => {
            if columns.len() > 0 {
                sql.append(" ORDER BY ");
                let ghost start = sql@;
                let ghost names = strings_view(columns@);
                let mut i: usize = 0;
                while i < columns.len()
                    invariant
                        i <= columns@.len(),
                        names == strings_view(columns@),
                        sql@ == start + column_list(names.take(i as int)),
                    decreases columns@.len() - i,
                {
                    if i > 0 {
                        sql.append(", ");
                    }
                    push_quoted_identifier(sql, columns[i].as_str());
                    let ghost part = names.take(i + 1);
                    assert(part.drop_last() =~= names.take(i as int));
                    assert(part.last() == columns@[i as int]@);
                    i = i + 1;
                    assert(sql@ =~= start + column_list(names.take(i as int)));
                }
                assert(names.take(columns@.len() as int) =~= names);
                assert(sql@ =~= old(sql)@ + order_clause(*order));
            }
        },
    }
}

/// The SQL that fetches one page of `table`:
/// `SELECT * FROM "<table>" <order> LIMIT <limit> OFFSET <offset>`.
pub fn page_query(table: &str, order: &RowOrder, limit: usize, offset: u128) -> (sql: String)
    ensures
        sql@ == page_sql(table@, *order, limit as nat, offset as nat),
{
    let mut sql = String::new();
    sql.append("SELECT * FROM ");
    push_quoted_identifier(&mut sql, table);
    push_order_clause(&mut sql, order);
    sql.append(" LIMIT ");
    push_decimal(&mut sql, limit as u128);
    sql.append(" OFFSET ");
    push_decimal(&mut sql, offset);
    assert(sql@ =~= page_sql(table@, *order, limit as nat, offset as nat));
    sql
}

} // verus!
