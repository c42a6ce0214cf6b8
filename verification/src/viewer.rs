//! The browser's state and how it answers each user action and each result of a database read.
//!
//! The reads themselves (opening a file, listing tables, counting and fetching rows) happen
//! outside; this module decides what to read and what the state becomes with what came back.
use vstd::prelude::*;
use crate::paging::{
    clamped_page, count_pages, effective_page_size, effective_size, is_offered_page_size,
    page_count, page_limit, page_query, page_sql, plan_page, shown_row_count, shown_rows, RowOrder,
    DISPLAY_ROW_LIMIT,
};
use crate::text::{
    byte_len, byte_length, decimal, max_nat, min_nat, push_decimal, push_space_padded,
    space_padded, strings_view,
};
use crate::value::{format_value_for_grid, format_value_for_inspector, grid_text, inspector_text, type_label, CellValue};

verus! {

/// The page size a new browser starts with.
pub const INITIAL_PAGE_SIZE: usize = 500;

/// Column widths are measured up to this many bytes.
pub const MAX_COLUMN_WIDTH: usize = 40;

/// No column is laid out narrower than this.
pub const MIN_COLUMN_WIDTH: usize = 8;

/// The browser's state, as plain mathematical values.
pub struct ViewerModel {
    /// Whether a database is open.
    pub db_open: bool,
    /// The table whose rows are shown.
    pub current_table: Option<Seq<char>>,
    /// The tables of the open database.
    pub table_list: Seq<Seq<char>>,
    /// The shown rows, rendered for the grid.
    pub table_data: Seq<Seq<Seq<char>>>,
    /// The names of the shown columns.
    pub column_names: Seq<Seq<char>>,
    /// The last error, if the last action failed.
    pub error_message: Option<Seq<char>>,
    /// The row count of the shown table.
    pub total_rows: Option<usize>,
    /// The chosen page size, one of the offered ones.
    pub page_size: usize,
    /// The shown page, from zero.
    pub current_page: usize,
    /// The shown rows as read.
    pub raw_data: Seq<Seq<CellValue>>,
    /// Whether the inspector window is open.
    pub inspector_open: bool,
    /// The inspector window's title.
    pub inspector_title: Seq<char>,
    /// The inspector window's text.
    pub inspector_content: Seq<char>,
}

/// What opening a database gave.
pub enum DatabaseLoad {
    /// The file opened and these are its tables.
    Listed(Vec<String>),
    /// The file did not open, for this reason.
    OpenFailed(String),
    /// The file opened but its tables could not be listed, for this reason.
    ListFailed(String),
}

/// The view of an optional string.
pub open spec fn option_view(o: Option<String>) -> Option<Seq<char>> {
    match o {
        Some(s) => Some(s@),
        None => None,
    }
}

/// The grid rendering of rows of values.
pub open spec fn grid_rows(rows: Seq<Seq<CellValue>>) -> Seq<Seq<Seq<char>>> {
    rows.map_values(|row: Seq<CellValue>| row.map_values(|v: CellValue| grid_text(v)))
}

/// The name of the shown table, or nothing.
pub open spec fn name_or_empty(name: Option<Seq<char>>) -> Seq<char> {
    match name {
        Some(n) => n,
        None => Seq::empty(),
    }
}

/// The message shown when a database does not open.
pub open spec fn open_failed_message(path: Seq<char>, reason: Seq<char>) -> Seq<char> {
    "Failed to open database '"@ + path + "': "@ + reason
}

/// The message shown when the tables of a database cannot be listed.
pub open spec fn list_failed_message(reason: Seq<char>) -> Seq<char> {
    "Failed to list tables: "@ + reason
}

/// The message shown when a table does not load.
pub open spec fn table_failed_message(table: Seq<char>, reason: Seq<char>) -> Seq<char> {
    "Error loading table '"@ + table + "': "@ + reason
}

/// A column's width: its byte length, at most forty.
pub open spec fn capped_width(s: Seq<char>) -> nat {
    min_nat(byte_length(s) as nat, MAX_COLUMN_WIDTH as nat)
}

/// The width of column `i` over the header and the first `n` rows: the largest capped width
/// among the header and the row cells in that column.
pub open spec fn column_width(
    columns: Seq<Seq<char>>,
    rows: Seq<Seq<Seq<char>>>,
    i: int,
    n: nat,
) -> nat
    decreases n,
{
    if n == 0 {
        capped_width(columns[i])
    } else {
        let before = column_width(columns, rows, i, (n - 1) as nat);
        let row = rows[n - 1];
        if i < row.len() {
            max_nat(before, capped_width(row[i]))
        } else {
            before
        }
    }
}

/// The width a cell of column `index` is padded to.
pub open spec fn label_width(widths: Seq<usize>, index: int) -> nat {
    if 0 <= index < widths.len() {
        max_nat(widths[index] as nat, MIN_COLUMN_WIDTH as nat)
    } else {
        MIN_COLUMN_WIDTH as nat
    }
}

impl ViewerModel {
    /// A new browser: nothing open, the initial page size.
    pub open spec fn initial() -> ViewerModel {
        ViewerModel {
            db_open: false,
            current_table: None,
            table_list: Seq::empty(),
            table_data: Seq::empty(),
            column_names: Seq::empty(),
            error_message: None,
            total_rows: None,
            page_size: INITIAL_PAGE_SIZE,
            current_page: 0,
            raw_data: Seq::empty(),
            inspector_open: false,
            inspector_title: Seq::empty(),
            inspector_content: Seq::empty(),
        }
    }

    /// The shown rows are the grid rendering of the rows as read.
    pub open spec fn consistent(self) -> bool {
        self.table_data == grid_rows(self.raw_data)
    }

    /// After closing the database: nothing open, nothing shown, no error, the first page; the
    /// page size and the inspector's last text stay.
    pub open spec fn closed(self) -> ViewerModel {
        ViewerModel {
            db_open: false,
            current_table: None,
            table_list: Seq::empty(),
            table_data: Seq::empty(),
            column_names: Seq::empty(),
            error_message: None,
            total_rows: None,
            current_page: 0,
            raw_data: Seq::empty(),
            inspector_open: false,
            ..self
        }
    }

    /// After a database opened and listed `tables`.
    pub open spec fn database_loaded(self, tables: Seq<Seq<char>>) -> ViewerModel {
        ViewerModel {
            db_open: true,
            table_list: tables,
            table_data: Seq::empty(),
            column_names: Seq::empty(),
            raw_data: Seq::empty(),
            current_table: None,
            error_message: None,
            total_rows: None,
            current_page: 0,
            inspector_open: false,
            ..self
        }
    }

    /// After a failed action: the message, and nothing else changed.
    pub open spec fn failed(self, message: Seq<char>) -> ViewerModel {
        ViewerModel { error_message: Some(message), ..self }
    }

    /// At the start of a table load: the last error is cleared.
    pub open spec fn load_started(self) -> ViewerModel {
        ViewerModel { error_message: None, ..self }
    }

    /// After the row count of the table being loaded is known: the count is kept and the page
    /// is clamped to the last one.
    pub open spec fn counted(self, total: usize) -> ViewerModel {
        ViewerModel {
            total_rows: Some(total),
            current_page: clamped_page(total as nat, self.page_size, self.current_page as nat) as usize,
            ..self
        }
    }

    /// After the rows of `table` were read.
    pub open spec fn table_loaded(
        self,
        table: Seq<char>,
        columns: Seq<Seq<char>>,
        rows: Seq<Seq<CellValue>>,
    ) -> ViewerModel {
        ViewerModel {
            column_names: columns,
            table_data: grid_rows(rows),
            raw_data: rows,
            current_table: Some(table),
            ..self
        }
    }

    /// After one whole load of `table` that read `total` rows in all and `rows` for the page:
    /// the last error cleared, the count kept with the page clamped, and the rows shown.
    pub open spec fn reloaded(
        self,
        table: Seq<char>,
        total: usize,
        columns: Seq<Seq<char>>,
        rows: Seq<Seq<CellValue>>,
    ) -> ViewerModel {
        self.load_started().counted(total).table_loaded(table, columns, rows)
    }

    /// After another table was picked: back to the first page, inspector closed.
    pub open spec fn table_picked(self) -> ViewerModel {
        ViewerModel { current_page: 0, inspector_open: false, ..self }
    }

    /// After a page size was picked: that size, back to the first page.
    pub open spec fn page_size_picked(self, size: usize) -> ViewerModel {
        ViewerModel { page_size: size, current_page: 0, ..self }
    }

    /// The number of pages the navigation counts with.
    pub open spec fn display_page_count(self) -> nat {
        let total = match self.total_rows {
            Some(t) => t as nat,
            None => 0,
        };
        page_count(shown_rows(total), effective_page_size(self.page_size))
    }

    /// The most rows that a load of the current page fetches.
    pub open spec fn fetch_limit(self) -> nat {
        page_limit(self.page_size, self.current_page as nat)
    }

    /// What every reachable state keeps: an offered page size; the first page while no row count
    /// is known; a page that starts inside the shown rows of a non-empty table; the shown rows
    /// the grid rendering of the rows read, at most the display limit of them, each with one
    /// value per column.
    pub open spec fn well_formed(self) -> bool {
        &&& is_offered_page_size(self.page_size)
        &&& self.total_rows is None ==> self.current_page == 0
        &&& forall|n: usize|
            self.total_rows == Some(n) && n > 0 ==> #[trigger] (self.current_page as nat
                * effective_page_size(self.page_size)) < shown_rows(n as nat)
        &&& self.table_data == grid_rows(self.raw_data)
        &&& self.raw_data.len() <= DISPLAY_ROW_LIMIT
        &&& forall|r: int|
            0 <= r < self.raw_data.len() ==> #[trigger] self.raw_data[r].len()
                == self.column_names.len()
    }

    /// Whether the first and previous buttons move.
    pub open spec fn can_go_back(self) -> bool {
        self.current_page > 0
    }

    /// Whether the next and last buttons move.
    pub open spec fn can_go_forward(self) -> bool {
        self.current_page + 1 < self.display_page_count()
    }

    /// After the first-page button.
    pub open spec fn at_first_page(self) -> ViewerModel {
        if self.can_go_back() {
            ViewerModel { current_page: 0, ..self }
        } else {
            self
        }
    }

    /// After the previous-page button.
    pub open spec fn at_previous_page(self) -> ViewerModel {
        if self.can_go_back() {
            ViewerModel { current_page: (self.current_page - 1) as usize, ..self }
        } else {
            self
        }
    }

    /// After the next-page button.
    pub open spec fn at_next_page(self) -> ViewerModel {
        if self.can_go_forward() {
            ViewerModel { current_page: (self.current_page + 1) as usize, ..self }
        } else {
            self
        }
    }

    /// After the last-page button.
    pub open spec fn at_last_page(self) -> ViewerModel {
        if self.can_go_forward() {
            ViewerModel { current_page: (self.display_page_count() - 1) as usize, ..self }
        } else {
            self
        }
    }

    /// The table to reload after a page move that happened.
    pub open spec fn reload_target(self, moved: bool) -> Option<Seq<char>> {
        if moved {
            self.current_table
        } else {
            None
        }
    }

    /// Whether cell (`row`, `column`) of the shown rows exists.
    pub open spec fn has_cell(self, row: int, column: int) -> bool {
        0 <= row < self.raw_data.len() && 0 <= column < self.raw_data[row].len()
    }

    /// The inspector's title for cell (`row`, `column`):
    /// `<table>  •  row <row + 1>  •  '<column name>' (<storage class>)`.
    pub open spec fn inspector_title_for(self, row: int, column: int) -> Seq<char> {
        let column_name = if 0 <= column < self.column_names.len() {
            self.column_names[column]
        } else {
            Seq::empty()
        };
        name_or_empty(self.current_table) + "  •  row "@ + decimal((row + 1) as nat) + "  •  '"@
            + column_name + "' ("@ + type_label(self.raw_data[row][column]) + ")"@
    }

    /// After clicking cell (`row`, `column`): the inspector opens on it when it exists.
    pub open spec fn inspected(self, row: int, column: int) -> ViewerModel {
        if self.has_cell(row, column) {
            ViewerModel {
                inspector_title: self.inspector_title_for(row, column),
                inspector_content: inspector_text(self.raw_data[row][column]),
                inspector_open: true,
                ..self
            }
        } else {
            self
        }
    }

    /// After the inspector's close button.
    pub open spec fn inspector_closed(self) -> ViewerModel {
        ViewerModel { inspector_open: false, ..self }
    }

    /// The summary line above the grid: the table name with its row count, or with the page
    /// and the range of rows shown when there is more than one page.
    pub open spec fn row_summary(self) -> Seq<char> {
        let name = name_or_empty(self.current_table);
        match self.total_rows {
            Some(total) => if self.display_page_count() > 1 {
                let start = self.current_page as nat * effective_page_size(self.page_size) + 1;
                let shown = self.table_data.len();
                let last = if shown > 0 {
                    start + shown - 1
                } else {
                    start as int
                };
                let end = min_nat(last as nat, total as nat);
                name + " (page "@ + decimal((self.current_page + 1) as nat) + "/"@ + decimal(
                    self.display_page_count(),
                ) + " — rows "@ + decimal(start) + "-"@ + decimal(end) + " of "@ + decimal(
                    total as nat,
                ) + ")"@
            } else {
                name + " ("@ + decimal(total as nat) + " rows)"@
            },
            None => name + " ("@ + decimal(self.table_data.len()) + " rows)"@,
        }
    }

    /// The page indicator between the navigation buttons: ` Page <page + 1> / <pages> `, with
    /// at least one page.
    pub open spec fn page_label(self) -> Seq<char> {
        " Page "@ + decimal((self.current_page + 1) as nat) + " / "@ + decimal(
            max_nat(self.display_page_count(), 1),
        ) + " "@
    }

    /// The width of each column: the largest capped byte length of its header and its cells.
    pub open spec fn column_widths(self) -> Seq<nat> {
        Seq::new(
            self.column_names.len(),
            |i: int| column_width(self.column_names, self.table_data, i, self.table_data.len()),
        )
    }
}

/// The browser's state.
pub struct ViewerState {
    db_open: bool,
    current_table: Option<String>,
    table_list: Vec<String>,
    table_data: Vec<Vec<String>>,
    column_names: Vec<String>,
    error_message: Option<String>,
    total_rows: Option<usize>,
    page_size: usize,
    current_page: usize,
    raw_data: Vec<Vec<CellValue>>,
    inspector_open: bool,
    inspector_title: String,
    inspector_content: String,
}

impl View for ViewerState {
    type V = ViewerModel;

    closed spec fn view(&self) -> ViewerModel {
        ViewerModel {
            db_open: self.db_open,
            current_table: option_view(self.current_table),
            table_list: strings_view(self.table_list@),
            table_data: self.table_data@.map_values(|row: Vec<String>| strings_view(row@)),
            column_names: strings_view(self.column_names@),
            error_message: option_view(self.error_message),
            total_rows: self.total_rows,
            page_size: self.page_size,
            current_page: self.current_page,
            raw_data: self.raw_data@.map_values(|row: Vec<CellValue>| row@),
            inspector_open: self.inspector_open,
            inspector_title: self.inspector_title@,
            inspector_content: self.inspector_content@,
        }
    }
}

/// A copy of an optional string.
fn copy_option(o: &Option<String>) -> (c: Option<String>)
    ensures
        option_view(c) == option_view(*o),
{
    match o {
        Some(s) => Some(s.clone()),
        None => None,
    }
}

/// The four texts, one after the other.
fn joined(first: &str, second: &str, third: &str, fourth: &str) -> (s: String)
    ensures
        s@ == first@ + second@ + third@ + fourth@,
{
    let mut s = String::new();
    s.append(first);
    s.append(second);
    s.append(third);
    s.append(fourth);
    assert(s@ =~= first@ + second@ + third@ + fourth@);
    s
}

/// The message for a database that did not open.
pub fn open_failure_message(path: &str, reason: &str) -> (msg: String)
    ensures
        msg@ == open_failed_message(path@, reason@),
{
    joined("Failed to open database '", path, "': ", reason)
}

/// The message for tables that could not be listed.
pub fn list_failure_message(reason: &str) -> (msg: String)
    ensures
        msg@ == list_failed_message(reason@),
{
    let mut msg = String::new();
    msg.append("Failed to list tables: ");
    msg.append(reason);
    msg
}

/// The message for a table that did not load.
pub fn table_failure_message(table: &str, reason: &str) -> (msg: String)
    ensures
        msg@ == table_failed_message(table@, reason@),
{
    joined("Error loading table '", table, "': ", reason)
}

/// The grid rendering of one row.
fn render_row(row: &Vec<CellValue>) -> (out: Vec<String>)
    ensures
        strings_view(out@) == row@.map_values(|v: CellValue| grid_text(v)),
{
    let mut out: Vec<String> = Vec::new();
    let mut j: usize = 0;
    while j < row.len()
        invariant
            j <= row@.len(),
            out@.len() == j,
            forall|k: int| 0 <= k < j ==> #[trigger] out@[k]@ == grid_text(row@[k]),
        decreases row@.len() - j,
    {
        out.push(format_value_for_grid(&row[j]));
        j = j + 1;
    }
    assert(strings_view(out@) =~= row@.map_values(|v: CellValue| grid_text(v)));
    out
}

/// The padded text of a cell of column `index`: the text followed by spaces up to the column's
/// width, and at least eight characters.
pub fn cell_label(text: &str, widths: &Vec<usize>, index: usize) -> (label: String)
    ensures
        label@ == space_padded(text@, label_width(widths@, index as int)),
{
    let width = if index < widths.len() {
        if widths[index] > MIN_COLUMN_WIDTH {
            widths[index]
        } else {
            MIN_COLUMN_WIDTH
        }
    } else {
        MIN_COLUMN_WIDTH
    };
    let mut label = String::new();
    push_space_padded(&mut label, text, width);
    assert(label@ =~= space_padded(text@, label_width(widths@, index as int)));
    label
}

impl ViewerState {
    /// A new browser: nothing open, a page size of 500, the first page.
    pub fn new() -> (s: Self)
        ensures
            s@ == ViewerModel::initial(),
    {
        let s = ViewerState {
            db_open: false,
            current_table: None,
            table_list: Vec::new(),
            table_data: Vec::new(),
            column_names: Vec::new(),
            error_message: None,
            total_rows: None,
            page_size: INITIAL_PAGE_SIZE,
            current_page: 0,
            raw_data: Vec::new(),
            inspector_open: false,
            inspector_title: String::new(),
            inspector_content: String::new(),
        };
        assert(s@.table_list =~= Seq::<Seq<char>>::empty());
        assert(s@.column_names =~= Seq::<Seq<char>>::empty());
        assert(s@.table_data =~= Seq::<Seq<Seq<char>>>::empty());
        assert(s@.raw_data =~= Seq::<Seq<CellValue>>::empty());
        assert(s@ =~= ViewerModel::initial());
        s
    }

    /// Takes in what opening the database at `path` gave. When the tables were listed, the
    /// browser shows the new database from a clean slate and the result is `true` (the caller
    /// keeps the new connection); otherwise only the error message changes, the previous
    /// database stays, and the result is `false`.
    pub fn finish_database_load(&mut self, path: &str, outcome: DatabaseLoad) -> (adopted: bool)
        ensures
            adopted == (outcome is Listed),
            match outcome {
                DatabaseLoad::Listed(tables) => final(self)@ == old(self)@.database_loaded(
                    strings_view(tables@),
                ),
                DatabaseLoad::OpenFailed(reason) => final(self)@ == old(self)@.failed(
                    open_failed_message(path@, reason@),
                ),
                DatabaseLoad::ListFailed(reason) => final(self)@ == old(self)@.failed(
                    list_failed_message(reason@),
                ),
            },
    {
        match outcome {
            DatabaseLoad::Listed(tables) => {
                self.db_open = true;
                self.table_list = tables;
                self.table_data = Vec::new();
                self.column_names = Vec::new();
                self.raw_data = Vec::new();
                self.current_table = None;
                self.error_message = None;
                self.total_rows = None;
                self.current_page = 0;
                self.inspector_open = false;
                assert(self@.table_data =~= Seq::<Seq<Seq<char>>>::empty());
                assert(self@.raw_data =~= Seq::<Seq<CellValue>>::empty());
                assert(self@.column_names =~= Seq::<Seq<char>>::empty());
                assert(self@ =~= old(self)@.database_loaded(strings_view(tables@)));
                true
            },
            DatabaseLoad::OpenFailed(reason) => {
                self.error_message = Some(open_failure_message(path, reason.as_str()));
                assert(self@ =~= old(self)@.failed(open_failed_message(path@, reason@)));
                false
            },
            DatabaseLoad::ListFailed(reason) => {
                self.error_message = Some(list_failure_message(reason.as_str()));
                assert(self@ =~= old(self)@.failed(list_failed_message(reason@)));
                false
            },
        }
    }

    /// Closes the database: nothing open, nothing shown, no error, the first page.
    pub fn close_database(&mut self)
        ensures
            final(self)@ == old(self)@.closed(),
    {
        self.db_open = false;
        self.table_list = Vec::new();
        self.table_data = Vec::new();
        self.column_names = Vec::new();
        self.raw_data = Vec::new();
        self.current_table = None;
        self.error_message = None;
        self.total_rows = None;
        self.current_page = 0;
        self.inspector_open = false;
        assert(self@.table_list =~= Seq::<Seq<char>>::empty());
        assert(self@.column_names =~= Seq::<Seq<char>>::empty());
        assert(self@.table_data =~= Seq::<Seq<Seq<char>>>::empty());
        assert(self@.raw_data =~= Seq::<Seq<CellValue>>::empty());
        assert(self@ =~= old(self)@.closed());
    }

    /// Starts loading a table: clears the last error and says whether a database is open to
    /// read from (when none is, the load ends here).
    pub fn start_table_load(&mut self) -> (has_db: bool)
        ensures
            has_db == old(self)@.db_open,
            final(self)@ == old(self)@.load_started(),
    {
        self.error_message = None;
        assert(self@ =~= old(self)@.load_started());
        self.db_open
    }

    /// Takes in the row count of the table being loaded: keeps it and clamps the page to the
    /// last page of the shown rows.
    pub fn record_row_count(&mut self, total: usize)
        ensures
            final(self)@ == old(self)@.counted(total),
    {
        let plan = plan_page(total, self.page_size, self.current_page);
        self.total_rows = Some(total);
        self.current_page = plan.page;
        assert(self@ =~= old(self)@.counted(total));
    }

    /// The SQL that fetches the current page of `table` in `order`: at most the fetch limit of
    /// rows, after the pages before it.
    pub fn page_query_for(&self, table: &str, order: &RowOrder) -> (sql: String)
        ensures
            sql@ == page_sql(
                table@,
                *order,
                self@.fetch_limit(),
                self@.current_page as nat * effective_page_size(self@.page_size),
            ),
    {
        let size = effective_size(self.page_size);
        assert(self.current_page as u128 * size as u128 <= u128::MAX) by (nonlinear_arith)
            requires
                self.current_page <= u64::MAX,
                size <= u64::MAX,
        ;
        let offset: u128 = self.current_page as u128 * size as u128;
        let limit = self.fetch_limit();
        page_query(table, order, limit, offset)
    }

    /// The most rows that a load of the current page fetches.
    pub fn fetch_limit(&self) -> (limit: usize)
        ensures
            limit as nat == self@.fetch_limit(),
    {
        let size = effective_size(self.page_size);
        assert(self.current_page as u128 * size as u128 <= u128::MAX) by (nonlinear_arith)
            requires
                self.current_page <= u64::MAX,
                size <= u64::MAX,
        ;
        let offset: u128 = self.current_page as u128 * size as u128;
        if offset < DISPLAY_ROW_LIMIT as u128 {
            let rest = DISPLAY_ROW_LIMIT - offset as usize;
            if size < rest {
                size
            } else {
                rest
            }
        } else {
            0
        }
    }

    /// Takes in the columns and rows read for `table`: they become the shown data, rendered for
    /// the grid, and `table` the shown table.
    pub fn finish_table_load(&mut self, table: &str, columns: Vec<String>, rows: Vec<Vec<CellValue>>)
        requires
            rows@.len() <= old(self)@.fetch_limit(),
            forall|r: int| 0 <= r < rows@.len() ==> #[trigger] rows@[r]@.len() == columns@.len(),
        ensures
            final(self)@ == old(self)@.table_loaded(
                table@,
                strings_view(columns@),
                rows@.map_values(|row: Vec<CellValue>| row@),
            ),
    {
        let mut display: Vec<Vec<String>> = Vec::new();
        let mut r: usize = 0;
        while r < rows.len()
            invariant
                r <= rows@.len(),
                display@.len() == r,
                forall|k: int|
                    0 <= k < r ==> strings_view(#[trigger] display@[k]@) == rows@[k]@.map_values(
                        |v: CellValue| grid_text(v),
                    ),
            decreases rows@.len() - r,
        {
            display.push(render_row(&rows[r]));
            r = r + 1;
        }
        let ghost raw = rows@.map_values(|row: Vec<CellValue>| row@);
        self.column_names = columns;
        self.table_data = display;
        self.raw_data = rows;
        let mut name = String::new();
        name.append(table);
        self.current_table = Some(name);
        assert(self@.table_data =~= grid_rows(raw));
        assert(self@.raw_data =~= raw);
        assert(self@ =~= old(self)@.table_loaded(table@, strings_view(columns@), raw));
    }

    /// Takes in the failure to load `table`: only the error message changes.
    pub fn fail_table_load(&mut self, table: &str, reason: &str)
        ensures
            final(self)@ == old(self)@.failed(table_failed_message(table@, reason@)),
    {
        self.error_message = Some(table_failure_message(table, reason));
        assert(self@ =~= old(self)@.failed(table_failed_message(table@, reason@)));
    }

    /// The table that the refresh button reloads: the shown one, if any.
    pub fn refresh_target(&self) -> (target: Option<String>)
        ensures
            option_view(target) == self@.current_table,
    {
        copy_option(&self.current_table)
    }

    /// Picks `table` from the list: back to the first page, inspector closed; `table` is what
    /// to load next.
    pub fn select_table(&mut self, table: &str) -> (target: String)
        ensures
            final(self)@ == old(self)@.table_picked(),
            target@ == table@,
    {
        self.current_page = 0;
        self.inspector_open = false;
        assert(self@ =~= old(self)@.table_picked());
        let mut target = String::new();
        target.append(table);
        target
    }

    /// Picks a page size: that size, back to the first page; the shown table, if any, is what
    /// to load next.
    pub fn choose_page_size(&mut self, size: usize) -> (target: Option<String>)
        requires
            is_offered_page_size(size),
        ensures
            final(self)@ == old(self)@.page_size_picked(size),
            option_view(target) == old(self)@.current_table,
    {
        self.page_size = size;
        self.current_page = 0;
        assert(self@ =~= old(self)@.page_size_picked(size));
        copy_option(&self.current_table)
    }

    /// The number of pages the navigation counts with: the shown rows (none when the row count
    /// is unknown) divided by the page size, rounded up.
    pub fn display_page_count(&self) -> (pages: usize)
        ensures
            pages as nat == self@.display_page_count(),
    {
        let total = match self.total_rows {
            Some(t) => t,
            None => 0,
        };
        count_pages(shown_row_count(total), effective_size(self.page_size))
    }

    /// Goes to the first page when not on it; gives the shown table to reload when it moved.
    pub fn first_page(&mut self) -> (target: Option<String>)
        ensures
            final(self)@ == old(self)@.at_first_page(),
            option_view(target) == old(self)@.reload_target(old(self)@.can_go_back()),
    {
        if self.current_page > 0 {
            self.current_page = 0;
            assert(self@ =~= old(self)@.at_first_page());
            copy_option(&self.current_table)
        } else {
            None
        }
    }

    /// Goes back one page when not on the first; gives the shown table to reload when it moved.
    pub fn previous_page(&mut self) -> (target: Option<String>)
        ensures
            final(self)@ == old(self)@.at_previous_page(),
            option_view(target) == old(self)@.reload_target(old(self)@.can_go_back()),
    {
        if self.current_page > 0 {
            self.current_page = self.current_page - 1;
            assert(self@ =~= old(self)@.at_previous_page());
            copy_option(&self.current_table)
        } else {
            None
        }
    }

    /// Goes forward one page when not on the last; gives the shown table to reload when it moved.
    pub fn next_page(&mut self) -> (target: Option<String>)
        ensures
            final(self)@ == old(self)@.at_next_page(),
            option_view(target) == old(self)@.reload_target(old(self)@.can_go_forward()),
    {
        let pages = self.display_page_count();
        if self.current_page < pages && self.current_page + 1 < pages {
            self.current_page = self.current_page + 1;
            assert(self@ =~= old(self)@.at_next_page());
            copy_option(&self.current_table)
        } else {
            None
        }
    }

    /// Goes to the last page when not on it; gives the shown table to reload when it moved.
    pub fn last_page(&mut self) -> (target: Option<String>)
        ensures
            final(self)@ == old(self)@.at_last_page(),
            option_view(target) == old(self)@.reload_target(old(self)@.can_go_forward()),
    {
        let pages = self.display_page_count();
        if self.current_page < pages && self.current_page + 1 < pages {
            self.current_page = pages - 1;
            assert(self@ =~= old(self)@.at_last_page());
            copy_option(&self.current_table)
        } else {
            None
        }
    }

    /// Clicks cell (`row`, `column`): when it exists, the inspector opens with its title and the
    /// full rendering of its value. Says whether it opened.
    pub fn inspect_cell(&mut self, row: usize, column: usize) -> (opened: bool)
        ensures
            opened == old(self)@.has_cell(row as int, column as int),
            final(self)@ == old(self)@.inspected(row as int, column as int),
    {
        if row < self.raw_data.len() && column < self.raw_data[row].len() {
            let value = &self.raw_data[row][column];
            let mut title = String::new();
            match &self.current_table {
                Some(t) => title.append(t.as_str()),
                None => {},
            }
            title.append("  •  row ");
            push_decimal(&mut title, row as u128 + 1);
            title.append("  •  '");
            if column < self.column_names.len() {
                title.append(self.column_names[column].as_str());
            }
            title.append("' (");
            title.append(value.storage_class());
            title.append(")");
            let content = format_value_for_inspector(value);
            proof {
                let m = old(self)@;
                assert(m.raw_data[row as int] == self.raw_data@[row as int]@);
                assert(m.raw_data[row as int][column as int] == *value);
                assert(title@ =~= m.inspector_title_for(row as int, column as int));
            }
            self.inspector_title = title;
            self.inspector_content = content;
            self.inspector_open = true;
            assert(self@ =~= old(self)@.inspected(row as int, column as int));
            true
        } else {
            false
        }
    }

    /// Closes the inspector.
    pub fn close_inspector(&mut self)
        ensures
            final(self)@ == old(self)@.inspector_closed(),
    {
        self.inspector_open = false;
        assert(self@ =~= old(self)@.inspector_closed());
    }

    /// The summary line above the grid.
    pub fn row_summary(&self) -> (line: String)
        ensures
            line@ == self@.row_summary(),
    {
        let mut line = String::new();
        match &self.current_table {
            Some(t) => line.append(t.as_str()),
            None => {},
        }
        let ghost name = line@;
        match self.total_rows {
            Some(total) => {
                let pages = self.display_page_count();
                if pages > 1 {
                    let size = effective_size(self.page_size);
                    assert(self.current_page as u128 * size as u128 + 1 <= u128::MAX)
                        by (nonlinear_arith)
                        requires
                            self.current_page <= u64::MAX,
                            size <= u64::MAX,
                    ;
                    let start: u128 = self.current_page as u128 * size as u128 + 1;
                    let shown = self.table_data.len();
                    assert(start + shown <= u128::MAX) by (nonlinear_arith)
                        requires
                            start == self.current_page as u128 * size as u128 + 1,
                            self.current_page <= u64::MAX,
                            size <= u64::MAX,
                            shown <= u64::MAX,
                    ;
                    let last: u128 = if shown > 0 {
                        start + (shown - 1) as u128
                    } else {
                        start
                    };
                    let end: u128 = if last < total as u128 {
                        last
                    } else {
                        total as u128
                    };
                    line.append(" (page ");
                    push_decimal(&mut line, self.current_page as u128 + 1);
                    line.append("/");
                    push_decimal(&mut line, pages as u128);
                    line.append(" — rows ");
                    push_decimal(&mut line, start);
                    line.append("-");
                    push_decimal(&mut line, end);
                    line.append(" of ");
                    push_decimal(&mut line, total as u128);
                    line.append(")");
                } else {
                    line.append(" (");
                    push_decimal(&mut line, total as u128);
                    line.append(" rows)");
                }
            },
            None => {
                line.append(" (");
                push_decimal(&mut line, self.table_data.len() as u128);
                line.append(" rows)");
            },
        }
        assert(line@ =~= self@.row_summary());
        line
    }

    /// The page indicator between the navigation buttons.
    pub fn page_label(&self) -> (label: String)
        ensures
            label@ == self@.page_label(),
    {
        let pages = self.display_page_count();
        let mut label = String::new();
        label.append(" Page ");
        push_decimal(&mut label, self.current_page as u128 + 1);
        label.append(" / ");
        push_decimal(&mut label, if pages > 1 { pages as u128 } else { 1 });
        label.append(" ");
        assert(label@ =~= self@.page_label());
        label
    }

    /// The width of each column: the largest byte length, capped at forty, of its header and of
    /// its cells in the shown rows.
    pub fn column_widths(&self) -> (widths: Vec<usize>)
        ensures
            widths@.len() == self@.column_names.len(),
            forall|i: int|
                0 <= i < widths@.len() ==> #[trigger] widths@[i] as nat == self@.column_widths()[i],
    {
        let ghost columns = self@.column_names;
        let ghost rows = self@.table_data;
        let mut widths: Vec<usize> = Vec::new();
        let mut i: usize = 0;
        while i < self.column_names.len()
            invariant
                i <= self.column_names@.len(),
                columns == self@.column_names,
                widths@.len() == i,
                forall|j: int|
                    0 <= j < i ==> #[trigger] widths@[j] as nat == column_width(columns, rows, j, 0),
            decreases self.column_names@.len() - i,
        {
            let n = byte_len(&self.column_names[i]);
            widths.push(if n < MAX_COLUMN_WIDTH { n } else { MAX_COLUMN_WIDTH });
            i = i + 1;
        }
        let mut r: usize = 0;
        while r < self.table_data.len()
            invariant
                r <= self.table_data@.len(),
                columns == self@.column_names,
                rows == self@.table_data,
                widths@.len() == columns.len(),
                forall|j: int|
                    0 <= j < widths@.len() ==> #[trigger] widths@[j] as nat == column_width(
                        columns,
                        rows,
                        j,
                        r as nat,
                    ),
            decreases self.table_data@.len() - r,
        {
            let row = &self.table_data[r];
            assert(rows[r as int] == strings_view(row@));
            let mut c: usize = 0;
            while c < row.len()
                invariant
                    c <= row@.len(),
                    r < rows.len(),
                    rows[r as int] == strings_view(row@),
                    widths@.len() == columns.len(),
                    forall|j: int|
                        0 <= j < widths@.len() ==> #[trigger] widths@[j] as nat == (if j < c {
                            column_width(columns, rows, j, (r + 1) as nat)
                        } else {
                            column_width(columns, rows, j, r as nat)
                        }),
                decreases row@.len() - c,
            {
                if c < widths.len() {
                    let n = byte_len(&row[c]);
                    let capped = if n < MAX_COLUMN_WIDTH { n } else { MAX_COLUMN_WIDTH };
                    if widths[c] < capped {
                        widths.set(c, capped);
                    }
                }
                c = c + 1;
            }
            r = r + 1;
        }
        widths
    }

    /// Whether a database is open.
    pub fn db_open(&self) -> (open: bool)
        ensures
            open == self@.db_open,
    {
        self.db_open
    }

    /// The shown table.
    pub fn current_table(&self) -> (table: Option<String>)
        ensures
            option_view(table) == self@.current_table,
    {
        copy_option(&self.current_table)
    }

    /// The tables of the open database.
    pub fn table_list(&self) -> (tables: &Vec<String>)
        ensures
            strings_view(tables@) == self@.table_list,
    {
        &self.table_list
    }

    /// The shown rows, rendered for the grid.
    pub fn table_data(&self) -> (rows: &Vec<Vec<String>>)
        ensures
            rows@.map_values(|row: Vec<String>| strings_view(row@)) == self@.table_data,
    {
        &self.table_data
    }

    /// The names of the shown columns.
    pub fn column_names(&self) -> (columns: &Vec<String>)
        ensures
            strings_view(columns@) == self@.column_names,
    {
        &self.column_names
    }

    /// The last error.
    pub fn error_message(&self) -> (message: Option<String>)
        ensures
            option_view(message) == self@.error_message,
    {
        copy_option(&self.error_message)
    }

    /// The row count of the shown table.
    pub fn total_rows(&self) -> (total: Option<usize>)
        ensures
            total == self@.total_rows,
    {
        self.total_rows
    }

    /// The chosen page size.
    pub fn page_size(&self) -> (size: usize)
        ensures
            size == self@.page_size,
    {
        self.page_size
    }

    /// The shown page, from zero.
    pub fn current_page(&self) -> (page: usize)
        ensures
            page == self@.current_page,
    {
        self.current_page
    }

    /// Whether the inspector is open.
    pub fn inspector_open(&self) -> (open: bool)
        ensures
            open == self@.inspector_open,
    {
        self.inspector_open
    }

    /// The inspector's title.
    pub fn inspector_title(&self) -> (title: &String)
        ensures
            title@ == self@.inspector_title,
    {
        &self.inspector_title
    }

    /// The inspector's text.
    pub fn inspector_content(&self) -> (content: &String)
        ensures
            content@ == self@.inspector_content,
    {
        &self.inspector_content
    }
}

} // verus!
