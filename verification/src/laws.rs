//! Properties of the browser that hold for every input: the numbers shown are the numbers
//! held, a hex dump shows every byte once and keeps its columns aligned, paging never leaves the
//! table, and every action keeps the shown rows the rendering of the rows read.
use vstd::prelude::*;
use crate::paging::{
    clamped_page, effective_page_size, is_offered_page_size, lemma_page_count_by_remainder, page_count,
    page_limit, shown_rows, DISPLAY_ROW_LIMIT,
};
use crate::text::{
    byte_length, decimal, digit_char, first_chars, hexadecimal, quoted_identifier, quotes_doubled,
    space_padded, zero_padded,
};
use crate::value::{
    byte_hex, dump_chunk, dump_line, dump_line_count, grid_text, hex_bytes, inspector_text,
    CellValue, GRID_TEXT_BYTE_LIMIT, GRID_TEXT_KEPT_CHARS,
};
use crate::viewer::{grid_rows, ViewerModel, INITIAL_PAGE_SIZE};

verus! {

/// The value of a digit character ('0'-'9', 'A'-'F', 'a'-'f').
pub open spec fn digit_value(c: char) -> int {
    if c <= '9' {
        c as int - 48
    } else if c <= 'F' {
        c as int - 55
    } else {
        c as int - 87
    }
}

/// The number that the digits `s` spell in `radix`.
pub open spec fn digits_value(s: Seq<char>, radix: int) -> int
    decreases s.len(),
{
    if s.len() == 0 {
        0
    } else {
        digits_value(s.drop_last(), radix) * radix + digit_value(s.last())
    }
}

/// Whether `c` is a hex digit of the given case (decimal digits belong to both cases).
pub open spec fn is_hex_char(c: char, upper: bool) -> bool {
    ||| '0' <= c <= '9'
    ||| upper && 'A' <= c <= 'F'
    ||| !upper && 'a' <= c <= 'f'
}

/// Whether `s` is a non-empty run of decimal digits.
pub open spec fn is_decimal_digits(s: Seq<char>) -> bool {
    s.len() > 0 && forall|i: int| 0 <= i < s.len() ==> '0' <= #[trigger] s[i] <= '9'
}

/// Whether `s` is a non-empty run of hex digits of the given case.
pub open spec fn is_hex_digits(s: Seq<char>, upper: bool) -> bool {
    s.len() > 0 && forall|i: int| 0 <= i < s.len() ==> is_hex_char(#[trigger] s[i], upper)
}

/// Reading back the digits of a digit character gives the digit.
pub proof fn lemma_digit_char_value(d: nat, upper: bool)
    requires
        d < 16,
    ensures
        digit_value(digit_char(d, upper)) == d,
        is_hex_char(digit_char(d, upper), upper),
        d < 10 ==> '0' <= digit_char(d, upper) <= '9',
{
}

/// The decimal rendering of `n` reads back as `n`, and has no leading zero unless it is "0".
pub proof fn lemma_decimal_reads_back(n: nat)
    ensures
        digits_value(decimal(n), 10) == n,
        decimal(n).len() >= 1,
        decimal(n).len() == 1 ==> n < 10,
        decimal(n).len() > 1 ==> decimal(n)[0] != '0',
        is_decimal_digits(decimal(n)),
    decreases n,
{
    lemma_digit_char_value(n % 10, false);
    if n >= 10 {
        lemma_decimal_reads_back(n / 10);
        let s = decimal(n);
        assert forall|i: int| 0 <= i < s.len() implies '0' <= #[trigger] s[i] <= '9' by {
            if i < s.len() - 1 {
                assert(s[i] == decimal(n / 10)[i]);
            }
        }
        assert(s.drop_last() =~= decimal(n / 10));
        assert(s.last() == digit_char(n % 10, false));
        assert(digits_value(s, 10) == digits_value(decimal(n / 10), 10) * 10 + digit_value(s.last()));
        assert((n / 10) * 10 + n % 10 == n);
        assert(s[0] == decimal(n / 10)[0]);
        if decimal(n / 10).len() == 1 {
            lemma_digit_char_value(n / 10, false);
        }
    } else {
        assert(decimal(n).drop_last() =~= Seq::<char>::empty());
        assert(digits_value(Seq::<char>::empty(), 10) == 0);
    }
}

/// The hexadecimal rendering of `n` reads back as `n`, in either case, and has no leading zero
/// unless it is "0".
pub proof fn lemma_hexadecimal_reads_back(n: nat, upper: bool)
    ensures
        digits_value(hexadecimal(n, upper), 16) == n,
        hexadecimal(n, upper).len() >= 1,
        hexadecimal(n, upper).len() == 1 ==> n < 16,
        hexadecimal(n, upper).len() > 1 ==> hexadecimal(n, upper)[0] != '0',
        is_hex_digits(hexadecimal(n, upper), upper),
    decreases n,
{
    lemma_digit_char_value(n % 16, upper);
    if n >= 16 {
        lemma_hexadecimal_reads_back(n / 16, upper);
        let s = hexadecimal(n, upper);
        assert forall|i: int| 0 <= i < s.len() implies is_hex_char(#[trigger] s[i], upper) by {
            if i < s.len() - 1 {
                assert(s[i] == hexadecimal(n / 16, upper)[i]);
            }
        }
        assert(s.drop_last() =~= hexadecimal(n / 16, upper));
        assert(s.last() == digit_char(n % 16, upper));
        assert(digits_value(s, 16) == digits_value(hexadecimal(n / 16, upper), 16) * 16 + digit_value(s.last()));
        assert((n / 16) * 16 + n % 16 == n);
        assert(s[0] == hexadecimal(n / 16, upper)[0]);
        if hexadecimal(n / 16, upper).len() == 1 {
            lemma_digit_char_value(n / 16, upper);
        }
    } else {
        assert(hexadecimal(n, upper).drop_last() =~= Seq::<char>::empty());
        assert(digits_value(Seq::<char>::empty(), 16) == 0);
    }
}

/// `16^k`.
pub open spec fn pow16(k: nat) -> nat
    decreases k,
{
    if k == 0 {
        1
    } else {
        16 * pow16((k - 1) as nat)
    }
}

/// A number below `16^k` takes at most `k` hex digits.
pub proof fn lemma_hexadecimal_length_bound(n: nat, k: nat, upper: bool)
    requires
        k >= 1,
        n < pow16(k),
    ensures
        hexadecimal(n, upper).len() <= k,
    decreases k,
{
    if n >= 16 {
        assert(k > 1) by {
            if k == 1 {
                assert(pow16(1) == 16 * pow16(0));
            }
        }
        assert(n / 16 < pow16((k - 1) as nat));
        lemma_hexadecimal_length_bound(n / 16, (k - 1) as nat, upper);
    }
}

/// Every byte shows as exactly two hex digits.
pub proof fn lemma_byte_hex_length(b: u8, upper: bool)
    ensures
        byte_hex(b, upper).len() == 2,
{
    assert(pow16(2) == 256) by {
        assert(pow16(1) == 16 * pow16(0));
    }
    lemma_hexadecimal_length_bound(b as nat, 2, upper);
}

/// `n` bytes in hex, separated by spaces, take `3n - 1` characters.
pub proof fn lemma_hex_bytes_length(bytes: Seq<u8>, upper: bool)
    requires
        bytes.len() > 0,
    ensures
        hex_bytes(bytes, upper).len() == 3 * bytes.len() - 1,
    decreases bytes.len(),
{
    lemma_byte_hex_length(bytes.last(), upper);
    if bytes.len() == 1 {
        lemma_byte_hex_length(bytes[0], upper);
    } else {
        lemma_hex_bytes_length(bytes.drop_last(), upper);
    }
}

/// Each line of a hex dump (one to sixteen bytes, at an offset below 2^32) is 62 characters
/// plus one per byte: the hex column always fills exactly its 47 characters, so the text
/// column lines up on every line.
pub proof fn lemma_dump_line_length(chunk: Seq<u8>, offset: nat)
    requires
        1 <= chunk.len() <= 16,
        offset < 0x1_0000_0000,
    ensures
        dump_line(chunk, offset).len() == 62 + chunk.len(),
        space_padded(hex_bytes(chunk, false), 47).len() == 47,
{
    reveal_strlit("  ");
    reveal_strlit("  |");
    reveal_strlit("|\n");
    assert(pow16(8) == 0x1_0000_0000) by {
        reveal_with_fuel(pow16, 9);
    }
    lemma_hexadecimal_length_bound(offset, 8, false);
    lemma_hex_bytes_length(chunk, false);
    assert(zero_padded(hexadecimal(offset, false), 8).len() == 8);
    assert(space_padded(hex_bytes(chunk, false), 47).len() == 47);
}

/// The first `k` chunks of a dump, joined.
pub open spec fn joined_chunks(bytes: Seq<u8>, k: nat) -> Seq<u8>
    decreases k,
{
    if k == 0 {
        seq![]
    } else {
        joined_chunks(bytes, (k - 1) as nat) + dump_chunk(bytes, (k - 1) as nat)
    }
}

/// The first `k` chunks hold the first `16k` bytes (or all of them).
proof fn lemma_joined_chunks_prefix(bytes: Seq<u8>, k: nat)
    requires
        k <= dump_line_count(bytes.len()),
    ensures
        joined_chunks(bytes, k) == bytes.take(
            if 16 * k <= bytes.len() {
                (16 * k) as int
            } else {
                bytes.len() as int
            },
        ),
    decreases k,
{
    if k > 0 {
        lemma_joined_chunks_prefix(bytes, (k - 1) as nat);
        let end = if 16 * k <= bytes.len() {
            (16 * k) as int
        } else {
            bytes.len() as int
        };
        assert(16 * (k - 1) < bytes.len());
        assert(joined_chunks(bytes, k) =~= bytes.take(end));
    } else {
        assert(joined_chunks(bytes, 0) =~= bytes.take(0));
    }
}

/// A hex dump shows every byte exactly once and in order: its lines' chunks, joined, are the
/// bytes dumped, and each chunk holds one to sixteen bytes.
pub proof fn lemma_dump_covers_every_byte(bytes: Seq<u8>)
    ensures
        joined_chunks(bytes, dump_line_count(bytes.len())) == bytes,
        forall|k: nat|
            k < dump_line_count(bytes.len()) ==> 1 <= #[trigger] dump_chunk(bytes, k).len() <= 16,
{
    lemma_joined_chunks_prefix(bytes, dump_line_count(bytes.len()));
    assert(bytes.take(bytes.len() as int) =~= bytes);
    assert forall|k: nat| k < dump_line_count(bytes.len()) implies 1 <= #[trigger] dump_chunk(
        bytes,
        k,
    ).len() <= 16 by {
        assert(16 * k < bytes.len());
    }
}

/// A page before the last one of `shown` rows starts inside them.
pub proof fn lemma_page_starts_inside(k: nat, shown: nat, size: nat)
    requires
        size > 0,
        k < page_count(shown, size),
    ensures
        k * size < shown,
        page_count(shown, size) <= shown,
{
    lemma_page_count_by_remainder(shown, size);
    let q = shown / size;
    let r = shown % size;
    assert(shown == size * q + r && 0 <= r < size) by (nonlinear_arith)
        requires
            size > 0,
            q == shown / size,
            r == shown % size,
    ;
    assert(k * size < shown) by (nonlinear_arith)
        requires
            size > 0,
            shown == size * q + r,
            0 <= r < size,
            k < q + (if r == 0 {
                0nat
            } else {
                1nat
            }),
    ;
}

/// After the row count of a non-empty table is known, the page shown is one of the pages of
/// its shown rows and starts inside them; a page that already was one of them stays.
pub proof fn lemma_counted_page_inside_table(m: ViewerModel, total: usize)
    requires
        total > 0,
    ensures
        m.counted(total).current_page < page_count(
            shown_rows(total as nat),
            effective_page_size(m.page_size),
        ),
        m.counted(total).current_page * effective_page_size(m.page_size) < shown_rows(
            total as nat,
        ),
        m.current_page < page_count(shown_rows(total as nat), effective_page_size(m.page_size))
            ==> m.counted(total).current_page == m.current_page,
{
    let size = effective_page_size(m.page_size);
    let shown = shown_rows(total as nat);
    let pages = page_count(shown, size);
    lemma_page_count_by_remainder(shown, size);
    assert(pages >= 1) by (nonlinear_arith)
        requires
            size > 0,
            shown > 0,
            pages == (shown + size - 1) as nat / size,
    ;
    lemma_page_starts_inside(m.counted(total).current_page as nat, shown, size);
}

/// A load never fetches more than a page, nor any row past the first thousand.
pub proof fn lemma_fetch_within_display(page_size: usize, page: nat)
    ensures
        page_limit(page_size, page) <= effective_page_size(page_size),
        page_limit(page_size, page) <= DISPLAY_ROW_LIMIT,
        page_limit(page_size, page) > 0 ==> page * effective_page_size(page_size) + page_limit(
            page_size,
            page,
        ) <= DISPLAY_ROW_LIMIT,
{
}

/// The navigation's page count is at most the number of shown rows, so it fits in a `usize`.
proof fn lemma_display_page_count_fits(m: ViewerModel)
    ensures
        m.display_page_count() <= DISPLAY_ROW_LIMIT,
{
    let total = match m.total_rows {
        Some(t) => t as nat,
        None => 0,
    };
    lemma_page_count_by_remainder(shown_rows(total), effective_page_size(m.page_size));
}

/// Every state the browser reaches is well formed: a new browser is, and every action and
/// every result of a read (an offered page size picked; rows read by a load, at most its fetch
/// limit of them, each with one value per column) keeps it so. In particular the page size is
/// always an offered one, the page always starts inside a non-empty table's shown rows, and the
/// shown rows are the rendering of the rows read.
pub proof fn lemma_actions_keep_well_formed(
    m: ViewerModel,
    tables: Seq<Seq<char>>,
    message: Seq<char>,
    total: usize,
    table: Seq<char>,
    columns: Seq<Seq<char>>,
    rows: Seq<Seq<CellValue>>,
    size: usize,
    row: int,
    column: int,
)
    requires
        m.well_formed(),
        is_offered_page_size(size),
        rows.len() <= m.fetch_limit(),
        forall|r: int| 0 <= r < rows.len() ==> #[trigger] rows[r].len() == columns.len(),
    ensures
        ViewerModel::initial().well_formed(),
        m.closed().well_formed(),
        m.database_loaded(tables).well_formed(),
        m.failed(message).well_formed(),
        m.load_started().well_formed(),
        m.counted(total).well_formed(),
        m.table_loaded(table, columns, rows).well_formed(),
        m.table_picked().well_formed(),
        m.page_size_picked(size).well_formed(),
        m.at_first_page().well_formed(),
        m.at_previous_page().well_formed(),
        m.at_next_page().well_formed(),
        m.at_last_page().well_formed(),
        m.inspected(row, column).well_formed(),
        m.inspector_closed().well_formed(),
{
    let empty_rows: Seq<Seq<CellValue>> = Seq::empty();
    assert(grid_rows(empty_rows) =~= Seq::empty());
    let eps = effective_page_size(m.page_size);
    lemma_fetch_within_display(m.page_size, m.current_page as nat);
    lemma_display_page_count_fits(m);
    if total > 0 {
        lemma_counted_page_inside_table(m, total);
    }
    let c = m.counted(total);
    assert forall|n: usize| c.total_rows == Some(n) && n > 0 implies #[trigger] (c.current_page
        as nat * effective_page_size(c.page_size)) < shown_rows(n as nat) by {}
    match m.total_rows {
        Some(n) => {
            let shown = shown_rows(n as nat);
            if m.can_go_forward() {
                lemma_page_starts_inside((m.current_page + 1) as nat, shown, eps);
                lemma_page_starts_inside((m.display_page_count() - 1) as nat, shown, eps);
                let f = m.at_next_page();
                assert forall|k: usize| f.total_rows == Some(k) && k > 0 implies #[trigger] (
                f.current_page as nat * effective_page_size(f.page_size)) < shown_rows(k as nat) by {}
                let l = m.at_last_page();
                assert forall|k: usize| l.total_rows == Some(k) && k > 0 implies #[trigger] (
                l.current_page as nat * effective_page_size(l.page_size)) < shown_rows(k as nat) by {}
            }
            if m.can_go_back() {
                let p = m.at_previous_page();
                assert(((m.current_page - 1) as nat) * eps <= m.current_page as nat * eps)
                    by (nonlinear_arith)
                    requires
                        m.current_page > 0,
                ;
                assert forall|k: usize| p.total_rows == Some(k) && k > 0 implies #[trigger] (
                p.current_page as nat * effective_page_size(p.page_size)) < shown_rows(k as nat) by {
                    assert(m.current_page as nat * eps < shown_rows(n as nat));
                }
            }
        },
        None => {
            lemma_page_count_by_remainder(0, eps);
            assert(0nat / eps == 0 && 0nat % eps == 0) by (nonlinear_arith)
                requires
                    eps > 0,
            ;
        },
    }
    let z = m.page_size_picked(size);
    assert forall|k: usize| z.total_rows == Some(k) && k > 0 implies #[trigger] (z.current_page
        as nat * effective_page_size(z.page_size)) < shown_rows(k as nat) by {
        let e = effective_page_size(z.page_size);
        assert(z.current_page as nat * e == 0) by (nonlinear_arith)
            requires
                z.current_page == 0,
        ;
    }
    let t = m.table_picked();
    assert forall|k: usize| t.total_rows == Some(k) && k > 0 implies #[trigger] (t.current_page
        as nat * effective_page_size(t.page_size)) < shown_rows(k as nat) by {
        let e = effective_page_size(t.page_size);
        assert(t.current_page == 0);
        assert(t.current_page as nat * e == 0) by (nonlinear_arith)
            requires
                t.current_page == 0,
        ;
    }
    let g = m.table_loaded(table, columns, rows);
    assert forall|r: int| 0 <= r < g.raw_data.len() implies #[trigger] g.raw_data[r].len()
        == g.column_names.len() by {}
}

/// Going forward a page and back again returns to the same state.
pub proof fn lemma_next_then_previous(m: ViewerModel)
    requires
        m.can_go_forward(),
    ensures
        m.at_next_page().at_previous_page() == m,
{
    lemma_display_page_count_fits(m);
}

/// Going back a page and forward again returns to the same state, when the page was one of
/// the table's pages.
pub proof fn lemma_previous_then_next(m: ViewerModel)
    requires
        m.can_go_back(),
        m.current_page < m.display_page_count(),
    ensures
        m.at_previous_page().at_next_page() == m,
{
}

/// After the last-page button there is no page further on; after the first-page button there
/// is no page before.
pub proof fn lemma_first_and_last_are_ends(m: ViewerModel)
    ensures
        !m.at_last_page().can_go_forward(),
        !m.at_first_page().can_go_back(),
{
    lemma_display_page_count_fits(m);
}

/// The page buttons never lead off the table's pages: a page among them stays among them.
pub proof fn lemma_navigation_stays_on_pages(m: ViewerModel)
    requires
        m.current_page < m.display_page_count() || m.current_page == 0,
    ensures
        ({
            let ok = |n: ViewerModel| n.current_page < n.display_page_count() || n.current_page == 0;
            &&& ok(m.at_first_page())
            &&& ok(m.at_previous_page())
            &&& ok(m.at_next_page())
            &&& ok(m.at_last_page())
        }),
{
    lemma_display_page_count_fits(m);
}

/// Closing the database gives a new browser's state, but for the page size and the
/// inspector's last text, which stay.
pub proof fn lemma_close_gives_fresh_browser(m: ViewerModel)
    ensures
        m.closed() == (ViewerModel {
            page_size: m.page_size,
            inspector_title: m.inspector_title,
            inspector_content: m.inspector_content,
            ..ViewerModel::initial()
        }),
{
}

/// A new browser starts on the first page with the initial page size and nothing open.
pub proof fn lemma_initial_browser(m: ViewerModel)
    requires
        m == ViewerModel::initial(),
    ensures
        !m.db_open,
        m.current_table is None,
        m.page_size == INITIAL_PAGE_SIZE,
        m.current_page == 0,
{
}

/// The grid never shows more of a text than its beginning: a text of at most 120 bytes shows
/// whole; a longer one shows its first (at most) hundred characters and an ellipsis. The
/// inspector always ends with the whole text.
pub proof fn lemma_text_renderings(t: String)
    ensures
        ({
            let grid = grid_text(CellValue::Text(t));
            let full = inspector_text(CellValue::Text(t));
            &&& byte_length(t@) <= GRID_TEXT_BYTE_LIMIT ==> grid == t@
            &&& byte_length(t@) > GRID_TEXT_BYTE_LIMIT ==> {
                &&& grid.len() <= 101
                &&& grid.last() == '…'
                &&& t@.take(grid.len() - 1) == grid.drop_last()
            }
            &&& full.len() >= t@.len()
            &&& full.subrange(full.len() - t@.len(), full.len() as int) == t@
        }),
{
    let grid = grid_text(CellValue::Text(t));
    if byte_length(t@) > GRID_TEXT_BYTE_LIMIT {
        let kept = first_chars(t@, GRID_TEXT_KEPT_CHARS as nat);
        assert(grid.drop_last() =~= kept);
        assert(t@.take(kept.len() as int) =~= kept);
    }
    let full = inspector_text(CellValue::Text(t));
    assert(full.subrange(full.len() - t@.len(), full.len() as int) =~= t@);
}

/// How SQLite reads the inside of a double-quoted identifier: a doubled quote stands for one.
pub open spec fn quotes_undoubled(s: Seq<char>) -> Seq<char>
    decreases s.len(),
{
    if s.len() == 0 {
        seq![]
    } else if s.last() == '"' && s.len() >= 2 {
        quotes_undoubled(s.drop_last().drop_last()).push('"')
    } else {
        quotes_undoubled(s.drop_last()).push(s.last())
    }
}

/// A quoted table or column name reads back as the name itself, whatever quotes it holds: the
/// SQL the browser writes names exactly the table it lists.
pub proof fn lemma_quoted_identifier_reads_back(name: Seq<char>)
    ensures
        quoted_identifier(name) == seq!['"'] + quotes_doubled(name) + seq!['"'],
        quotes_undoubled(quotes_doubled(name)) == name,
    decreases name.len(),
{
    if name.len() > 0 {
        lemma_quoted_identifier_reads_back(name.drop_last());
        let body = quotes_doubled(name);
        let before = quotes_doubled(name.drop_last());
        if name.last() == '"' {
            assert(body.drop_last().drop_last() =~= before);
        } else {
            assert(body.drop_last() =~= before);
        }
        assert(name.drop_last().push(name.last()) =~= name);
    } else {
        assert(quotes_doubled(name) =~= Seq::<char>::empty());
        assert(name =~= Seq::<char>::empty());
    }
}

/// Clamping a page twice is clamping it once.
pub proof fn lemma_clamp_is_idempotent(total: nat, page_size: usize, page: nat)
    ensures
        clamped_page(total, page_size, clamped_page(total, page_size, page)) == clamped_page(
            total,
            page_size,
            page,
        ),
{
}

/// Loading the same table twice, with the database unchanged in between (the same row count,
/// columns and rows read), leaves the state that one load left; the second load fetches the
/// same page.
pub proof fn lemma_reload_is_idempotent(
    m: ViewerModel,
    table: Seq<char>,
    total: usize,
    columns: Seq<Seq<char>>,
    rows: Seq<Seq<CellValue>>,
)
    ensures
        m.reloaded(table, total, columns, rows).reloaded(table, total, columns, rows) == m.reloaded(
            table,
            total,
            columns,
            rows,
        ),
        m.reloaded(table, total, columns, rows).load_started().counted(total).current_page
            == m.reloaded(table, total, columns, rows).current_page,
{
    let once = m.reloaded(table, total, columns, rows);
    let page = clamped_page(total as nat, m.page_size, m.current_page as nat);
    lemma_clamp_is_idempotent(total as nat, m.page_size, m.current_page as nat);
    assert(page <= m.current_page || page < page_count(
        shown_rows(total as nat),
        effective_page_size(m.page_size),
    ));
    lemma_page_count_by_remainder(shown_rows(total as nat), effective_page_size(m.page_size));
    assert(once.current_page as nat == page);
    assert(once.load_started().counted(total).current_page == once.current_page);
    assert(once.reloaded(table, total, columns, rows) =~= once);
}

} // verus!
