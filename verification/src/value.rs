//! The values that a table cell can hold, and the two ways the viewer renders them:
//! a short form for the grid and a full form (with a hex dump for blobs) for the inspector.
use vstd::prelude::*;
use crate::text::{
    byte_len, byte_length, decimal, first_chars, hexadecimal, min_nat, push_char, push_decimal,
    push_hexadecimal, push_hexadecimal_padded, push_signed_decimal, push_space_padded,
    signed_decimal, space_padded, zero_padded,
};

verus! {

/// Text longer than this many bytes is cut short in the grid.
pub const GRID_TEXT_BYTE_LIMIT: usize = 120;

/// How many characters of a long text the grid keeps.
pub const GRID_TEXT_KEPT_CHARS: usize = 100;

/// How many leading bytes of a blob the grid previews.
pub const GRID_BLOB_PREVIEW_BYTES: usize = 8;

/// How many leading bytes of a blob the inspector dumps.
pub const DUMP_BYTE_LIMIT: usize = 4096;

/// How many bytes each line of a hex dump shows.
pub const DUMP_LINE_BYTES: usize = 16;

/// The width, in characters, of the hex column of a dump line.
pub const DUMP_HEX_WIDTH: usize = 47;

/// One value read from a SQLite table, by storage class.
///
/// A `Real` is carried by its decimal rendering, the text that the float's `Display` gives.
#[derive(Debug, PartialEq)]
pub enum CellValue {
    Null,
    Integer(i64),
    Real(String),
    Text(String),
    Blob(Vec<u8>),
}

/// The storage class's name.
pub open spec fn type_label(v: CellValue) -> Seq<char> {
    match v {
        CellValue::Null => "NULL"@,
        CellValue::Integer(_) => "INTEGER"@,
        CellValue::Real(_) => "REAL"@,
        CellValue::Text(_) => "TEXT"@,
        CellValue::Blob(_) => "BLOB"@,
    }
}

/// Two hex digits for one byte.
pub open spec fn byte_hex(b: u8, upper: bool) -> Seq<char> {
    zero_padded(hexadecimal(b as nat, upper), 2)
}

/// The bytes in hex, two digits each, separated by single spaces.
pub open spec fn hex_bytes(bytes: Seq<u8>, upper: bool) -> Seq<char>
    decreases bytes.len(),
{
    if bytes.len() == 0 {
        seq![]
    } else if bytes.len() == 1 {
        byte_hex(bytes[0], upper)
    } else {
        hex_bytes(bytes.drop_last(), upper) + seq![' '] + byte_hex(bytes.last(), upper)
    }
}

/// How a byte shows in the text column of a dump: printable ASCII as itself, anything else as '.'.
pub open spec fn dump_char(b: u8) -> char {
    if 32 <= b < 127 {
        b as char
    } else {
        '.'
    }
}

/// The text column of a dump line.
pub open spec fn dump_chars(bytes: Seq<u8>) -> Seq<char> {
    bytes.map_values(|b: u8| dump_char(b))
}

/// One line of a hex dump: the offset in eight hex digits, the bytes in hex padded to the
/// column's width, and the bytes as text between bars.
pub open spec fn dump_line(chunk: Seq<u8>, offset: nat) -> Seq<char> {
    zero_padded(hexadecimal(offset, false), 8) + "  "@ + space_padded(
        hex_bytes(chunk, false),
        DUMP_HEX_WIDTH as nat,
    ) + "  |"@ + dump_chars(chunk) + "|\n"@
}

/// The `k`-th slice of sixteen bytes (the last one may be shorter).
pub open spec fn dump_chunk(bytes: Seq<u8>, k: nat) -> Seq<u8> {
    bytes.subrange(
        (k * 16) as int,
        min_nat(k * 16 + 16, bytes.len()) as int,
    )
}

/// The number of lines that a dump of `len` bytes takes.
pub open spec fn dump_line_count(len: nat) -> nat {
    (len + 15) / 16
}

/// The first `k` lines of the dump of `bytes`.
pub open spec fn dump_lines(bytes: Seq<u8>, k: nat) -> Seq<char>
    decreases k,
{
    if k == 0 {
        seq![]
    } else {
        dump_lines(bytes, (k - 1) as nat) + dump_line(
            dump_chunk(bytes, (k - 1) as nat),
            ((k - 1) * 16) as nat,
        )
    }
}

/// The whole dump of `bytes`.
pub open spec fn hex_dump(bytes: Seq<u8>) -> Seq<char> {
    dump_lines(bytes, dump_line_count(bytes.len()))
}

/// The short rendering of a value in the grid.
pub open spec fn grid_text(v: CellValue) -> Seq<char> {
    match v {
        CellValue::Null => "NULL"@,
        CellValue::Integer(i) => signed_decimal(i as int),
        CellValue::Real(r) => r@,
        CellValue::Text(t) => if byte_length(t@) > GRID_TEXT_BYTE_LIMIT {
            first_chars(t@, GRID_TEXT_KEPT_CHARS as nat).push('…')
        } else {
            t@
        },
        CellValue::Blob(b) => if b@.len() > GRID_BLOB_PREVIEW_BYTES {
            "[BLOB "@ + decimal(b@.len()) + "B] "@ + hex_bytes(
                b@.take(GRID_BLOB_PREVIEW_BYTES as int),
                true,
            )
        } else if b@.len() == 0 {
            "[BLOB 0B]"@
        } else {
            "[BLOB] "@ + hex_bytes(b@, true)
        },
    }
}

/// The full rendering of a blob in the inspector: its size in decimal and hex, a dump of its
/// first bytes, and a note on how many bytes were left out.
pub open spec fn blob_inspection(b: Seq<u8>) -> Seq<char> {
    let shown = min_nat(b.len(), DUMP_BYTE_LIMIT as nat);
    "BLOB ("@ + decimal(b.len()) + " bytes, 0x"@ + hexadecimal(b.len(), true) + ")\n\n"@
        + hex_dump(b.take(shown as int)) + if b.len() > shown {
        "\n... ("@ + decimal((b.len() - shown) as nat) + " more bytes truncated for display)\n"@
    } else {
        seq![]
    }
}

/// The full rendering of a value in the inspector.
pub open spec fn inspector_text(v: CellValue) -> Seq<char> {
    match v {
        CellValue::Null => "NULL"@,
        CellValue::Integer(i) => "INTEGER: "@ + signed_decimal(i as int),
        CellValue::Real(r) => "REAL: "@ + r@,
        CellValue::Text(t) => "TEXT ("@ + decimal(byte_length(t@) as nat) + " chars):\n"@ + t@,
        CellValue::Blob(b) => blob_inspection(b@),
    }
}

impl CellValue {
    /// The name of the value's storage class.
    pub fn storage_class(&self) -> (name: &'static str)
        ensures
            name@ == type_label(*self),
    {
        match self {
            CellValue::Null => "NULL",
            CellValue::Integer(_) => "INTEGER",
            CellValue::Real(_) => "REAL",
            CellValue::Text(_) => "TEXT",
            CellValue::Blob(_) => "BLOB",
        }
    }
}

/// Appends the hex of `bytes[from..to]` to `s`, two digits a byte, separated by spaces.
fn push_hex_bytes(s: &mut String, bytes: &[u8], from: usize, to: usize, upper: bool)
    requires
        from <= to <= bytes@.len(),
    ensures
        final(s)@ == old(s)@ + hex_bytes(bytes@.subrange(from as int, to as int), upper),
{
    let ghost start = s@;
    let mut i = from;
    assert(bytes@.subrange(from as int, from as int) =~= Seq::<u8>::empty());
    while i < to
        invariant
            from <= i <= to <= bytes@.len(),
            s@ == start + hex_bytes(bytes@.subrange(from as int, i as int), upper),
        decreases to - i,
    {
            if i > from {
            push_char(s, ' ');
        }
        push_hexadecimal_padded(s, bytes[i] as u128, 2, upper);
        let ghost part = bytes@.subrange(from as int, i + 1);
        assert(part.drop_last() =~= bytes@.subrange(from as int, i as int));
        assert(part.last() == bytes@[i as int]);
        i = i + 1;
        assert(s@ =~= start + hex_bytes(bytes@.subrange(from as int, i as int), upper));
    }
}

/// Appends the text column of `bytes[from..to]` to `s`.
fn push_dump_chars(s: &mut String, bytes: &[u8], from: usize, to: usize)
    requires
        from <= to <= bytes@.len(),
    ensures
        final(s)@ == old(s)@ + dump_chars(bytes@.subrange(from as int, to as int)),
{
    let ghost start = s@;
    let mut i = from;
    while i < to
        invariant
            from <= i <= to <= bytes@.len(),
            s@ == start + dump_chars(bytes@.subrange(from as int, i as int)),
        decreases to - i,
    {
        let b = bytes[i];
        let c = if 32 <= b && b < 127 {
            b as char
        } else {
            '.'
        };
        push_char(s, c);
        i = i + 1;
        assert(s@ =~= start + dump_chars(bytes@.subrange(from as int, i as int)));
    }
}

/// Appends one dump line for `bytes[from..to]`, whose offset is `from`.
fn push_dump_line(s: &mut String, bytes: &[u8], from: usize, to: usize)
    requires
        from <= to <= bytes@.len(),
    ensures
        final(s)@ == old(s)@ + dump_line(bytes@.subrange(from as int, to as int), from as nat),
{
    push_hexadecimal_padded(s, from as u128, 8, false);
    s.append("  ");
    let mut hex = String::new();
    push_hex_bytes(&mut hex, bytes, from, to, false);
    assert(hex@ =~= hex_bytes(bytes@.subrange(from as int, to as int), false));
    push_space_padded(s, hex.as_str(), DUMP_HEX_WIDTH);
    s.append("  |");
    push_dump_chars(s, bytes, from, to);
    s.append("|\n");
    assert(final(s)@ =~= old(s)@ + dump_line(bytes@.subrange(from as int, to as int), from as nat));
}

/// Appends the dump of `bytes[..shown]` to `s`.
fn push_hex_dump(s: &mut String, bytes: &[u8], shown: usize)
    requires
        shown <= bytes@.len(),
        shown <= DUMP_BYTE_LIMIT,
    ensures
        final(s)@ == old(s)@ + hex_dump(bytes@.take(shown as int)),
{
    let ghost start = s@;
    let ghost view = bytes@.take(shown as int);
    let lines: usize = (shown + 15) / 16;
    let mut k: usize = 0;
    while k < lines
        invariant
            k <= lines,
            lines == dump_line_count(shown as nat),
            shown <= bytes@.len(),
            shown <= DUMP_BYTE_LIMIT,
            view == bytes@.take(shown as int),
            s@ == start + dump_lines(view, k as nat),
        decreases lines - k,
    {
        let from = k * 16;
        let to = if from + 16 <= shown {
            from + 16
        } else {
            shown
        };
        push_dump_line(s, bytes, from, to);
        assert(dump_chunk(view, k as nat) =~= bytes@.subrange(from as int, to as int));
        k = k + 1;
        assert(s@ =~= start + dump_lines(view, k as nat));
    }
}

/// The short form of a value that the grid shows: `NULL`, the number, the text (cut to its
/// first hundred characters and an ellipsis when it is over 120 bytes long), or the blob's size
/// and its first eight bytes in hex.
pub fn format_value_for_grid(val: &CellValue) -> (s: String)
    ensures
        s@ == grid_text(*val),
{
    match val {
        CellValue::Null => {
            let mut s = String::new();
            s.append("NULL");
            s
        },
        CellValue::Integer(i) => {
            let mut s = String::new();
            push_signed_decimal(&mut s, *i);
            assert(s@ =~= signed_decimal(*i as int));
            s
        },
        CellValue::Real(r) => r.clone(),
        CellValue::Text(t) => {
            if byte_len(t) > GRID_TEXT_BYTE_LIMIT {
                let chars = t.as_str().unicode_len();
                let keep = if chars < GRID_TEXT_KEPT_CHARS {
                    chars
                } else {
                    GRID_TEXT_KEPT_CHARS
                };
                let mut s = String::new();
                s.append(t.as_str().substring_char(0, keep));
                push_char(&mut s, '…');
                assert(s@ =~= first_chars(t@, GRID_TEXT_KEPT_CHARS as nat).push('…'));
                s
            } else {
                t.clone()
            }
        },
        CellValue::Blob(b) => {
            let len = b.len();
            let mut s = String::new();
            if len > GRID_BLOB_PREVIEW_BYTES {
                s.append("[BLOB ");
                push_decimal(&mut s, len as u128);
                s.append("B] ");
                push_hex_bytes(&mut s, b.as_slice(), 0, GRID_BLOB_PREVIEW_BYTES, true);
                assert(b@.subrange(0, GRID_BLOB_PREVIEW_BYTES as int) =~= b@.take(
                    GRID_BLOB_PREVIEW_BYTES as int,
                ));
                assert(s@ =~= grid_text(*val));
            } else if len == 0 {
                s.append("[BLOB 0B]");
            } else {
                s.append("[BLOB] ");
                push_hex_bytes(&mut s, b.as_slice(), 0, len, true);
                assert(b@.subrange(0, len as int) =~= b@);
                assert(s@ =~= grid_text(*val));
            }
            s
        },
    }
}

/// The full form of a value that the inspector shows: the storage class with the number or the
/// whole text, or for a blob its size and a hex and text dump of its first 4096 bytes.
pub fn format_value_for_inspector(val: &CellValue) -> (s: String)
    ensures
        s@ == inspector_text(*val),
{
    let mut s = String::new();
    match val {
        CellValue::Null => {
            s.append("NULL");
        },
        CellValue::Integer(i) => {
            s.append("INTEGER: ");
            push_signed_decimal(&mut s, *i);
        },
        CellValue::Real(r) => {
            s.append("REAL: ");
            s.append(r.as_str());
        },
        CellValue::Text(t) => {
            s.append("TEXT (");
            push_decimal(&mut s, byte_len(t) as u128);
            s.append(" chars):\n");
            s.append(t.as_str());
        },
        CellValue::Blob(b) => {
            let len = b.len();
            s.append("BLOB (");
            push_decimal(&mut s, len as u128);
            s.append(" bytes, 0x");
            push_hexadecimal(&mut s, len as u128, true);
            s.append(")\n\n");
            let shown = if len < DUMP_BYTE_LIMIT {
                len
            } else {
                DUMP_BYTE_LIMIT
            };
            push_hex_dump(&mut s, b.as_slice(), shown);
            if len > shown {
                s.append("\n... (");
                push_decimal(&mut s, (len - shown) as u128);
                s.append(" more bytes truncated for display)\n");
            }
        },
    }
    assert(s@ =~= inspector_text(*val));
    s
}

} // verus!
