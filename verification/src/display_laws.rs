//! What the rendered texts say, read back: the hex of each byte is that byte, the text column
//! of a dump shows printable bytes as themselves, the sizes and counts shown are the real ones,
//! the column widths fit their headers and cells, and the inspector shows a cell's whole value.
use vstd::prelude::*;
use crate::laws::{
    digit_value, digits_value, is_decimal_digits, is_hex_char, is_hex_digits,
    lemma_byte_hex_length, lemma_decimal_reads_back, lemma_dump_line_length, lemma_hex_bytes_length,
    lemma_hexadecimal_reads_back, lemma_text_renderings,
};
use crate::text::{
    byte_length, decimal, first_chars, hexadecimal, max_nat, min_nat, repeat_char, signed_decimal, space_padded, zero_padded,
};
use crate::viewer::{column_width, label_width, name_or_empty, ViewerModel};
use crate::paging::effective_page_size;
use crate::value::{
    type_label,
    byte_hex, dump_chars, grid_text, inspector_text, CellValue, GRID_TEXT_BYTE_LIMIT, dump_chunk, dump_line, dump_line_count, dump_lines, hex_bytes, hex_dump,
    DUMP_BYTE_LIMIT, DUMP_HEX_WIDTH,
};

verus! {

/// A run of zeros spells zero.
proof fn lemma_zeros_value(z: nat, radix: int)
    ensures
        digits_value(repeat_char('0', z), radix) == 0,
    decreases z,
{
    if z > 0 {
        lemma_zeros_value((z - 1) as nat, radix);
        assert(repeat_char('0', z).drop_last() =~= repeat_char('0', (z - 1) as nat));
        assert(digit_value('0') == 0);
        assert(digits_value(repeat_char('0', (z - 1) as nat), radix) * radix == 0) by (
        nonlinear_arith)
            requires
                digits_value(repeat_char('0', (z - 1) as nat), radix) == 0,
        ;
    }
}

/// Zeros in front do not change what digits spell.
pub proof fn lemma_leading_zeros(z: nat, s: Seq<char>, radix: int)
    ensures
        digits_value(repeat_char('0', z) + s, radix) == digits_value(s, radix),
    decreases s.len(),
{
    if s.len() == 0 {
        lemma_zeros_value(z, radix);
        assert(repeat_char('0', z) + s =~= repeat_char('0', z));
    } else {
        lemma_leading_zeros(z, s.drop_last(), radix);
        assert((repeat_char('0', z) + s).drop_last() =~= repeat_char('0', z) + s.drop_last());
        assert((repeat_char('0', z) + s).last() == s.last());
    }
}

/// The digits of `n`, with zeros in front up to `width`, still spell `n` in hex.
pub proof fn lemma_zero_padded_hex_reads_back(n: nat, width: nat, upper: bool)
    ensures
        digits_value(zero_padded(hexadecimal(n, upper), width), 16) == n,
        is_hex_digits(zero_padded(hexadecimal(n, upper), width), upper),
{
    let h = hexadecimal(n, upper);
    lemma_hexadecimal_reads_back(n, upper);
    if h.len() < width {
        let z = (width - h.len()) as nat;
        lemma_leading_zeros(z, h, 16);
        let p = zero_padded(h, width);
        assert forall|i: int| 0 <= i < p.len() implies is_hex_char(#[trigger] p[i], upper) by {
            if i >= z {
                assert(p[i] == h[i - z]);
            }
        }
    }
}

/// Each byte shows as two hex digits of the chosen case that spell the byte.
pub proof fn lemma_byte_hex_reads_back(b: u8, upper: bool)
    ensures
        byte_hex(b, upper).len() == 2,
        digits_value(byte_hex(b, upper), 16) == b,
        is_hex_digits(byte_hex(b, upper), upper),
{
    lemma_byte_hex_length(b, upper);
    lemma_zero_padded_hex_reads_back(b as nat, 2, upper);
}

/// The hex of a run of bytes: three characters a byte but for the last, each byte's two hex
/// digits (of the chosen case) spelling that byte, and single spaces between them.
pub proof fn lemma_hex_bytes_read_back(v: Seq<u8>, upper: bool)
    requires
        v.len() > 0,
    ensures
        hex_bytes(v, upper).len() == 3 * v.len() - 1,
        forall|i: int|
            0 <= i < v.len() ==> digits_value(
                #[trigger] hex_bytes(v, upper).subrange(3 * i, 3 * i + 2),
                16,
            ) == v[i] && is_hex_digits(hex_bytes(v, upper).subrange(3 * i, 3 * i + 2), upper),
        forall|i: int| 0 <= i < v.len() - 1 ==> #[trigger] hex_bytes(v, upper)[3 * i + 2] == ' ',
    decreases v.len(),
{
    lemma_hex_bytes_length(v, upper);
    lemma_byte_hex_reads_back(v.last(), upper);
    let h = hex_bytes(v, upper);
    if v.len() == 1 {
        lemma_byte_hex_reads_back(v[0], upper);
        assert(h.subrange(0, 2) =~= byte_hex(v[0], upper));
    } else {
        let w = v.drop_last();
        lemma_hex_bytes_read_back(w, upper);
        let g = hex_bytes(w, upper);
        assert(h == g + seq![' '] + byte_hex(v.last(), upper));
        assert forall|i: int| 0 <= i < v.len() implies digits_value(
            #[trigger] h.subrange(3 * i, 3 * i + 2),
            16,
        ) == v[i] && is_hex_digits(h.subrange(3 * i, 3 * i + 2), upper) by {
            if i < v.len() - 1 {
                assert(h.subrange(3 * i, 3 * i + 2) =~= g.subrange(3 * i, 3 * i + 2));
                assert(v[i] == w[i]);
            } else {
                assert(h.subrange(3 * i, 3 * i + 2) =~= byte_hex(v.last(), upper));
            }
        }
        assert forall|i: int| 0 <= i < v.len() - 1 implies #[trigger] h[3 * i + 2] == ' ' by {
            if i < v.len() - 2 {
                assert(h[3 * i + 2] == g[3 * i + 2]);
            }
        }
    }
}

/// Where the pieces of one dump line stand: the offset in its first eight characters, the hex
/// of byte `i` at `10 + 3i`, and the text of byte `i` at `60 + i`, where a printable ASCII byte
/// (32 to 126) shows as itself and any other byte as '.'.
pub proof fn lemma_dump_line_positions(chunk: Seq<u8>, offset: nat)
    requires
        1 <= chunk.len() <= 16,
        offset < 0x1_0000_0000,
    ensures
        dump_line(chunk, offset).len() == 62 + chunk.len(),
        dump_line(chunk, offset).subrange(0, 8) == zero_padded(hexadecimal(offset, false), 8),
        forall|i: int|
            0 <= i < chunk.len() ==> #[trigger] dump_line(chunk, offset).subrange(
                10 + 3 * i,
                12 + 3 * i,
            ) == hex_bytes(chunk, false).subrange(3 * i, 3 * i + 2),
        forall|i: int|
            0 <= i < chunk.len() ==> #[trigger] dump_line(chunk, offset)[60 + i] == (if 32
                <= chunk[i] < 127 {
                chunk[i] as char
            } else {
                '.'
            }),
{
    reveal_strlit("  ");
    reveal_strlit("  |");
    reveal_strlit("|\n");
    lemma_dump_line_length(chunk, offset);
    lemma_hex_bytes_length(chunk, false);
    let line = dump_line(chunk, offset);
    let a = zero_padded(hexadecimal(offset, false), 8);
    let h = hex_bytes(chunk, false);
    let p = space_padded(h, DUMP_HEX_WIDTH as nat);
    let c = dump_chars(chunk);
    assert(a.len() == 8);
    assert(line == a + "  "@ + p + "  |"@ + c + "|\n"@);
    assert(line.subrange(0, 8) =~= a);
    assert forall|i: int| 0 <= i < chunk.len() implies #[trigger] line.subrange(
        10 + 3 * i,
        12 + 3 * i,
    ) == h.subrange(3 * i, 3 * i + 2) by {
        assert(line.subrange(10 + 3 * i, 12 + 3 * i) =~= p.subrange(3 * i, 3 * i + 2));
        assert(p.subrange(3 * i, 3 * i + 2) =~= h.subrange(3 * i, 3 * i + 2));
    }
    assert forall|i: int| 0 <= i < chunk.len() implies #[trigger] line[60 + i] == (if 32
        <= chunk[i] < 127 {
        chunk[i] as char
    } else {
        '.'
    }) by {
        assert(line[60 + i] == c[i]);
    }
}

/// The first `k` lines of a dump begin the first `m` lines, for `k <= m`.
proof fn lemma_dump_lines_prefix(v: Seq<u8>, k: nat, m: nat)
    requires
        k <= m,
    ensures
        dump_lines(v, k).len() <= dump_lines(v, m).len(),
        forall|x: int|
            0 <= x < dump_lines(v, k).len() ==> #[trigger] dump_lines(v, m)[x] == dump_lines(
                v,
                k,
            )[x],
    decreases m,
{
    if k < m {
        lemma_dump_lines_prefix(v, k, (m - 1) as nat);
    }
}

/// Lines of full chunks take 78 characters each.
proof fn lemma_full_dump_lines_length(v: Seq<u8>, k: nat)
    requires
        16 * k <= v.len(),
        v.len() <= DUMP_BYTE_LIMIT,
    ensures
        dump_lines(v, k).len() == 78 * k,
    decreases k,
{
    if k > 0 {
        lemma_full_dump_lines_length(v, (k - 1) as nat);
        let chunk = dump_chunk(v, (k - 1) as nat);
        assert(chunk.len() == 16);
        lemma_dump_line_length(chunk, ((k - 1) * 16) as nat);
    }
}

/// A hex dump shows every byte it covers: byte `j` stands on line `j / 16` (each line before it
/// is 78 characters), that line starts with its offset `16 * (j / 16)` in hex, the byte's two
/// hex digits spell the byte, and its text column shows it as itself when it is printable ASCII
/// (32 to 126) and as '.' otherwise.
pub proof fn lemma_dump_shows_each_byte(v: Seq<u8>, j: int)
    requires
        0 <= j < v.len(),
        v.len() <= DUMP_BYTE_LIMIT,
    ensures
        ({
            let d = hex_dump(v);
            let start = 78 * (j / 16);
            let i = j % 16;
            &&& start + 62 + i <= d.len()
            &&& digits_value(d.subrange(start, start + 8), 16) == 16 * (j / 16)
            &&& digits_value(d.subrange(start + 10 + 3 * i, start + 12 + 3 * i), 16) == v[j]
            &&& d[start + 60 + i] == (if 32 <= v[j] < 127 {
                v[j] as char
            } else {
                '.'
            })
        }),
{
    let k = (j / 16) as nat;
    let i = j % 16;
    let count = dump_line_count(v.len());
    assert(k + 1 <= count);
    let chunk = dump_chunk(v, k);
    assert(chunk.len() >= i + 1 && chunk.len() <= 16);
    assert(chunk[i] == v[j]);
    let off = (k * 16) as nat;
    lemma_full_dump_lines_length(v, k);
    lemma_dump_line_positions(chunk, off);
    lemma_dump_lines_prefix(v, k + 1, count);
    let before = dump_lines(v, k);
    let line = dump_line(chunk, off);
    let upto = dump_lines(v, k + 1);
    assert(upto == before + line);
    let d = hex_dump(v);
    let start: int = (78 * k) as int;
    assert(d.subrange(start, start + 8) =~= line.subrange(0, 8));
    lemma_zero_padded_hex_reads_back(off, 8, false);
    assert(d.subrange(start + 10 + 3 * i, start + 12 + 3 * i) =~= line.subrange(10 + 3 * i, 12 + 3 * i));
    let _ = line.subrange(10 + 3 * i, 12 + 3 * i);
    lemma_hex_bytes_read_back(chunk, false);
    let _ = hex_bytes(chunk, false).subrange(3 * i, 3 * i + 2);
    assert(d[start + 60 + i] == line[60 + i]);
    let _ = line[60 + i];
}

/// What the grid shows of each value: `NULL`; an integer's decimal digits (after a minus sign
/// when negative) that spell it; a real's text; a text whole up to 120 bytes, else its beginning
/// and an ellipsis; a blob's size in decimal digits that spell its byte count, and the hex of
/// its first (at most eight) bytes.
pub proof fn lemma_grid_text_reads_back(v: CellValue)
    ensures
        ({
            let g = grid_text(v);
            match v {
                CellValue::Null => g == "NULL"@,
                CellValue::Integer(i) => exists|d: Seq<char>|
                    #![trigger digits_value(d, 10)]
                    is_decimal_digits(d) && (i >= 0 ==> g == d && digits_value(d, 10) == i) && (i
                        < 0 ==> g == seq!['-'] + d && digits_value(d, 10) == -i),
                CellValue::Real(r) => g == r@,
                CellValue::Text(t) => (byte_length(t@) <= GRID_TEXT_BYTE_LIMIT ==> g == t@) && (
                byte_length(t@) > GRID_TEXT_BYTE_LIMIT ==> g.len() == (if t@.len() < 100 {
                    t@.len()
                } else {
                    100
                }) + 1 && g.last() == '…'
                    && g.drop_last() == t@.take(g.len() - 1)),
                CellValue::Blob(b) => {
                    &&& b@.len() > 8 ==> exists|d: Seq<char>|
                        #![trigger digits_value(d, 10)]
                        is_decimal_digits(d) && digits_value(d, 10) == b@.len() && g == "[BLOB "@
                            + d + "B] "@ + hex_bytes(b@.take(8), true)
                    &&& b@.len() == 0 ==> g == "[BLOB 0B]"@
                    &&& 0 < b@.len() <= 8 ==> g == "[BLOB] "@ + hex_bytes(b@, true)
                },
            }
        }),
{
    let g = grid_text(v);
    match v {
        CellValue::Integer(i) => {
            if i >= 0 {
                lemma_decimal_reads_back(i as nat);
                assert(is_decimal_digits(decimal(i as nat)) && digits_value(decimal(i as nat), 10)
                    == i);
            } else {
                lemma_decimal_reads_back((-i) as nat);
                assert(is_decimal_digits(decimal((-i) as nat)) && digits_value(
                    decimal((-i) as nat),
                    10,
                ) == -i);
            }
        },
        CellValue::Text(t) => {
            lemma_text_renderings(t);
            if byte_length(t@) > GRID_TEXT_BYTE_LIMIT {
                assert(g.drop_last() == t@.take(g.len() - 1));
                assert(g.drop_last() == first_chars(t@, 100));
            }
        },
        CellValue::Blob(b) => {
            lemma_decimal_reads_back(b@.len());
            assert(is_decimal_digits(decimal(b@.len())) && digits_value(decimal(b@.len()), 10)
                == b@.len());
        },
        _ => {},
    }
}

/// What the inspector shows of each value: `NULL`; `INTEGER: ` and decimal digits (after a
/// minus sign when negative) that spell the integer; `REAL: ` and the real's text; `TEXT (`,
/// decimal digits that spell the text's byte count, ` chars):`, a newline and the whole text;
/// for a blob, decimal and upper-case hex digits that both spell its byte count, then the dump
/// of its first (at most 4096) bytes, then, when bytes were left out, decimal digits that spell
/// how many.
pub proof fn lemma_inspector_text_reads_back(v: CellValue)
    ensures
        ({
            let s = inspector_text(v);
            match v {
                CellValue::Null => s == "NULL"@,
                CellValue::Integer(i) => exists|d: Seq<char>|
                    #![trigger digits_value(d, 10)]
                    is_decimal_digits(d) && (i >= 0 ==> s == "INTEGER: "@ + d && digits_value(d, 10)
                        == i) && (i < 0 ==> s == "INTEGER: "@ + seq!['-'] + d && digits_value(
                        d,
                        10,
                    ) == -i),
                CellValue::Real(r) => s == "REAL: "@ + r@,
                CellValue::Text(t) => exists|d: Seq<char>|
                    #![trigger digits_value(d, 10)]
                    is_decimal_digits(d) && digits_value(d, 10) == byte_length(t@) && s == "TEXT ("@
                        + d + " chars):\n"@ + t@,
                CellValue::Blob(b) => {
                    let n = b@.len();
                    let shown = if n <= DUMP_BYTE_LIMIT {
                        n
                    } else {
                        DUMP_BYTE_LIMIT as nat
                    };
                    exists|d: Seq<char>, x: Seq<char>, r: Seq<char>|
                        #![trigger digits_value(d, 10), digits_value(x, 16), digits_value(r, 10)]
                        {
                            &&& is_decimal_digits(d) && digits_value(d, 10) == n
                            &&& is_hex_digits(x, true) && digits_value(x, 16) == n
                            &&& n > DUMP_BYTE_LIMIT ==> is_decimal_digits(r) && digits_value(r, 10)
                                == n - DUMP_BYTE_LIMIT
                            &&& s == "BLOB ("@ + d + " bytes, 0x"@ + x + ")\n\n"@ + hex_dump(
                                b@.take(shown as int),
                            ) + if n > DUMP_BYTE_LIMIT {
                                "\n... ("@ + r + " more bytes truncated for display)\n"@
                            } else {
                                Seq::<char>::empty()
                            }
                        }
                },
            }
        }),
{
    match v {
        CellValue::Integer(i) => {
            if i >= 0 {
                lemma_decimal_reads_back(i as nat);
                assert(is_decimal_digits(decimal(i as nat)) && digits_value(decimal(i as nat), 10)
                    == i);
            } else {
                lemma_decimal_reads_back((-i) as nat);
                assert(is_decimal_digits(decimal((-i) as nat)) && digits_value(
                    decimal((-i) as nat),
                    10,
                ) == -i);
                assert("INTEGER: "@ + signed_decimal(i as int) =~= "INTEGER: "@ + seq!['-']
                    + decimal((-i) as nat));
            }
        },
        CellValue::Text(t) => {
            lemma_decimal_reads_back(byte_length(t@) as nat);
            assert(is_decimal_digits(decimal(byte_length(t@) as nat)) && digits_value(
                decimal(byte_length(t@) as nat),
                10,
            ) == byte_length(t@));
        },
        CellValue::Blob(b) => {
            let n = b@.len();
            lemma_decimal_reads_back(n);
            lemma_hexadecimal_reads_back(n, true);
            let d = decimal(n);
            let x = hexadecimal(n, true);
            assert(digits_value(d, 10) == n && digits_value(x, 16) == n);
            let r = if n > DUMP_BYTE_LIMIT {
                decimal((n - DUMP_BYTE_LIMIT) as nat)
            } else {
                decimal(0)
            };
            if n > DUMP_BYTE_LIMIT {
                lemma_decimal_reads_back((n - DUMP_BYTE_LIMIT) as nat);
            }
            let shown = if n <= DUMP_BYTE_LIMIT {
                n
            } else {
                DUMP_BYTE_LIMIT as nat
            };
            assert(inspector_text(v) == "BLOB ("@ + d + " bytes, 0x"@ + x + ")\n\n"@ + hex_dump(
                b@.take(shown as int),
            ) + if n > DUMP_BYTE_LIMIT {
                "\n... ("@ + r + " more bytes truncated for display)\n"@
            } else {
                Seq::<char>::empty()
            });
            assert(digits_value(r, 10) == digits_value(r, 10));
        },
        _ => {},
    }
}

/// The summary line reports real numbers: with a row count `t` over several pages it reads
/// `<name> (page <p>/<c> — rows <a>-<z> of <t>)`, where the digits spell the page (from one),
/// the page count, the first row of the page, its last row (capped by `t`) and `t`; over one
/// page it reads `<name> (<t> rows)`; with no count, the number of rows shown.
pub proof fn lemma_row_summary_reads_back(m: ViewerModel)
    ensures
        ({
            let s = m.row_summary();
            let name = name_or_empty(m.current_table);
            match m.total_rows {
                Some(t) => if m.display_page_count() > 1 {
                    let first = m.current_page as int * effective_page_size(m.page_size) + 1;
                    let rows = m.table_data.len() as int;
                    let last = if rows > 0 {
                        first + rows - 1
                    } else {
                        first
                    };
                    let end = if last <= t {
                        last
                    } else {
                        t as int
                    };
                    exists|p: Seq<char>, c: Seq<char>, a: Seq<char>, z: Seq<char>, d: Seq<char>|
                        #![trigger digits_value(p, 10), digits_value(c, 10), digits_value(a, 10), digits_value(z, 10), digits_value(d, 10)]
                        {
                            &&& is_decimal_digits(p) && digits_value(p, 10) == m.current_page + 1
                            &&& is_decimal_digits(c) && digits_value(c, 10)
                                == m.display_page_count()
                            &&& is_decimal_digits(a) && digits_value(a, 10) == first
                            &&& is_decimal_digits(z) && digits_value(z, 10) == end
                            &&& is_decimal_digits(d) && digits_value(d, 10) == t
                            &&& s == name + " (page "@ + p + "/"@ + c + " — rows "@ + a + "-"@ + z
                                + " of "@ + d + ")"@
                        }
                } else {
                    exists|d: Seq<char>|
                        #![trigger digits_value(d, 10)]
                        is_decimal_digits(d) && digits_value(d, 10) == t && s == name + " ("@ + d
                            + " rows)"@
                },
                None => exists|d: Seq<char>|
                    #![trigger digits_value(d, 10)]
                    is_decimal_digits(d) && digits_value(d, 10) == m.table_data.len() && s == name
                        + " ("@ + d + " rows)"@,
            }
        }),
{
    match m.total_rows {
        Some(t) => {
            lemma_decimal_reads_back(t as nat);
            if m.display_page_count() > 1 {
                let first = m.current_page as nat * effective_page_size(m.page_size) + 1;
                let rows = m.table_data.len();
                let last = if rows > 0 {
                    first + rows - 1
                } else {
                    first as int
                };
                let end = min_nat(last as nat, t as nat);
                lemma_decimal_reads_back((m.current_page + 1) as nat);
                lemma_decimal_reads_back(m.display_page_count());
                lemma_decimal_reads_back(first);
                lemma_decimal_reads_back(end);
                assert(digits_value(decimal((m.current_page + 1) as nat), 10) == m.current_page + 1);
                assert(digits_value(decimal(m.display_page_count()), 10) == m.display_page_count());
                assert(digits_value(decimal(first), 10) == first);
                assert(digits_value(decimal(end), 10) == end);
                assert(digits_value(decimal(t as nat), 10) == t);
            } else {
                assert(digits_value(decimal(t as nat), 10) == t);
            }
        },
        None => {
            lemma_decimal_reads_back(m.table_data.len());
            assert(digits_value(decimal(m.table_data.len()), 10) == m.table_data.len());
        },
    }
}

/// A byte length, at most forty.
pub open spec fn at_most_forty(s: Seq<char>) -> nat {
    if byte_length(s) <= 40 {
        byte_length(s) as nat
    } else {
        40
    }
}

/// The width of column `i` over the header and the first `n` rows fits the header and each of
/// those cells (each by its byte length, at most forty), and is one of them.
proof fn lemma_column_width_fits(
    columns: Seq<Seq<char>>,
    rows: Seq<Seq<Seq<char>>>,
    i: int,
    n: nat,
)
    requires
        0 <= i < columns.len(),
        n <= rows.len(),
    ensures
        column_width(columns, rows, i, n) >= at_most_forty(columns[i]),
        column_width(columns, rows, i, n) <= 40,
        forall|r: int|
            0 <= r < n && i < rows[r].len() ==> column_width(columns, rows, i, n)
                >= at_most_forty(#[trigger] rows[r][i]),
        column_width(columns, rows, i, n) == at_most_forty(columns[i]) || exists|r: int|
            0 <= r < n && i < rows[r].len() && column_width(columns, rows, i, n)
                == at_most_forty(#[trigger] rows[r][i]),
    decreases n,
{
    if n > 0 {
        lemma_column_width_fits(columns, rows, i, (n - 1) as nat);
        let w = column_width(columns, rows, i, n);
        if i < rows[n - 1].len() && w != column_width(columns, rows, i, (n - 1) as nat) {
            assert(w == at_most_forty(rows[n - 1][i]));
        }
    }
}

/// Every column is as wide as its header and each of its shown cells (each counted by its
/// byte length, at most forty), and no wider than the widest of them.
pub proof fn lemma_column_widths_fit(m: ViewerModel)
    ensures
        m.column_widths().len() == m.column_names.len(),
        forall|i: int|
            0 <= i < m.column_names.len() ==> {
                let w = #[trigger] m.column_widths()[i];
                &&& w >= at_most_forty(m.column_names[i])
                &&& w <= 40
                &&& forall|r: int|
                    0 <= r < m.table_data.len() && i < m.table_data[r].len() ==> w
                        >= at_most_forty(#[trigger] m.table_data[r][i])
                &&& w == at_most_forty(m.column_names[i]) || exists|r: int|
                    0 <= r < m.table_data.len() && i < m.table_data[r].len() && w
                        == at_most_forty(#[trigger] m.table_data[r][i])
            },
{
    assert forall|i: int| 0 <= i < m.column_names.len() implies {
        let w = #[trigger] m.column_widths()[i];
        &&& w >= at_most_forty(m.column_names[i])
        &&& w <= 40
        &&& forall|r: int|
            0 <= r < m.table_data.len() && i < m.table_data[r].len() ==> w >= at_most_forty(
                #[trigger] m.table_data[r][i],
            )
        &&& w == at_most_forty(m.column_names[i]) || exists|r: int|
            0 <= r < m.table_data.len() && i < m.table_data[r].len() && w == at_most_forty(
                #[trigger] m.table_data[r][i],
            )
    } by {
        lemma_column_width_fits(m.column_names, m.table_data, i, m.table_data.len());
    }
}

/// Clicking an existing cell opens the inspector on the cell's whole value (for a text, the
/// inspector ends with the whole text), titled with the table, the row number from one (digits
/// that spell it), the column's name and the storage class; nothing else changes. Clicking
/// outside the rows read changes nothing.
pub proof fn lemma_inspect_shows_whole_value(m: ViewerModel, row: int, column: int)
    ensures
        m.has_cell(row, column) ==> {
            let n = m.inspected(row, column);
            let v = m.raw_data[row][column];
            let column_name = if column < m.column_names.len() {
                m.column_names[column]
            } else {
                Seq::<char>::empty()
            };
            &&& n.inspector_open
            &&& n.inspector_content == inspector_text(v)
            &&& (v matches CellValue::Text(t) ==> n.inspector_content.len() >= t@.len()
                && n.inspector_content.subrange(
                n.inspector_content.len() - t@.len(),
                n.inspector_content.len() as int,
            ) == t@)
            &&& exists|d: Seq<char>|
                #![trigger digits_value(d, 10)]
                is_decimal_digits(d) && digits_value(d, 10) == row + 1 && n.inspector_title
                    == name_or_empty(m.current_table) + "  •  row "@ + d + "  •  '"@ + column_name
                    + "' ("@ + type_label(v) + ")"@
            &&& (ViewerModel {
                inspector_open: m.inspector_open,
                inspector_title: m.inspector_title,
                inspector_content: m.inspector_content,
                ..n
            }) == m
        },
        !m.has_cell(row, column) ==> m.inspected(row, column) == m,
{
    if m.has_cell(row, column) {
        let v = m.raw_data[row][column];
        if let CellValue::Text(t) = v {
            lemma_text_renderings(t);
        }
        lemma_decimal_reads_back((row + 1) as nat);
        assert(digits_value(decimal((row + 1) as nat), 10) == row + 1);
    }
}

/// A dump of `n` bytes is 78 characters for each full line of sixteen bytes, and
/// `62 + n % 16` for a last, shorter line: every byte is dumped and nothing else is.
pub proof fn lemma_hex_dump_length(v: Seq<u8>)
    requires
        v.len() <= DUMP_BYTE_LIMIT,
    ensures
        hex_dump(v).len() == 78 * (v.len() / 16) + (if v.len() % 16 > 0 {
            62 + v.len() % 16
        } else {
            0
        }),
{
    let full = v.len() / 16;
    lemma_full_dump_lines_length(v, full);
    if v.len() % 16 > 0 {
        assert(dump_line_count(v.len()) == full + 1);
        let chunk = dump_chunk(v, full);
        assert(chunk.len() == v.len() % 16);
        lemma_dump_line_length(chunk, full * 16);
    } else {
        assert(dump_line_count(v.len()) == full);
    }
}

/// The page indicator reads ` Page <p> / <c> ` with digits that spell the page (from one) and
/// the page count (at least one).
pub proof fn lemma_page_label_reads_back(m: ViewerModel)
    ensures
        exists|p: Seq<char>, c: Seq<char>|
            #![trigger digits_value(p, 10), digits_value(c, 10)]
            {
                &&& is_decimal_digits(p) && digits_value(p, 10) == m.current_page + 1
                &&& is_decimal_digits(c) && digits_value(c, 10) == if m.display_page_count() > 1 {
                    m.display_page_count()
                } else {
                    1
                }
                &&& m.page_label() == " Page "@ + p + " / "@ + c + " "@
            },
{
    lemma_decimal_reads_back((m.current_page + 1) as nat);
    let pages = max_nat(m.display_page_count(), 1);
    lemma_decimal_reads_back(pages);
    assert(digits_value(decimal((m.current_page + 1) as nat), 10) == m.current_page + 1);
    assert(digits_value(decimal(pages), 10) == pages);
}

/// A cell's label is its text, then spaces up to the column's width (its entry in `widths`,
/// at least eight; eight for a column beyond them); a longer text is kept whole.
pub proof fn lemma_cell_label_padding(text: Seq<char>, widths: Seq<usize>, index: int)
    ensures
        ({
            let label = space_padded(text, label_width(widths, index));
            let width: int = if 0 <= index < widths.len() && widths[index] > 8 {
                widths[index] as int
            } else {
                8
            };
            &&& label.len() == if text.len() >= width {
                text.len() as int
            } else {
                width
            }
            &&& label.subrange(0, text.len() as int) == text
            &&& forall|k: int| text.len() <= k < label.len() ==> #[trigger] label[k] == ' '
        }),
{
    let label = space_padded(text, label_width(widths, index));
    assert(label.subrange(0, text.len() as int) =~= text);
}

} // verus!
