use sqlite_watch::value::{format_value_for_grid, format_value_for_inspector, CellValue};

#[test]
fn grid_null() {
    assert_eq!(format_value_for_grid(&CellValue::Null), "NULL");
}

#[test]
fn grid_integers() {
    assert_eq!(format_value_for_grid(&CellValue::Integer(0)), "0");
    assert_eq!(format_value_for_grid(&CellValue::Integer(-42)), "-42");
    assert_eq!(format_value_for_grid(&CellValue::Integer(1234567890)), "1234567890");
    assert_eq!(
        format_value_for_grid(&CellValue::Integer(i64::MIN)),
        i64::MIN.to_string()
    );
    assert_eq!(
        format_value_for_grid(&CellValue::Integer(i64::MAX)),
        i64::MAX.to_string()
    );
}

#[test]
fn grid_real_is_its_rendering() {
    let text = 3.5f64.to_string();
    assert_eq!(format_value_for_grid(&CellValue::Real(text.clone())), text);
}

#[test]
fn grid_short_text_is_whole() {
    assert_eq!(format_value_for_grid(&CellValue::Text("hello".to_string())), "hello");
    let exactly_limit = "a".repeat(120);
    assert_eq!(
        format_value_for_grid(&CellValue::Text(exactly_limit.clone())),
        exactly_limit
    );
}

#[test]
fn grid_long_text_is_cut_to_a_hundred_chars() {
    let long = "a".repeat(121);
    let expected = format!("{}…", "a".repeat(100));
    assert_eq!(format_value_for_grid(&CellValue::Text(long)), expected);
}

#[test]
fn grid_text_limit_counts_bytes_not_chars() {
    // 61 two-byte characters: 122 bytes, over the limit, but fewer than 100 characters.
    let accented = "é".repeat(61);
    assert_eq!(
        format_value_for_grid(&CellValue::Text(accented.clone())),
        format!("{}…", accented)
    );
    // 60 of them: 120 bytes, within the limit.
    let within = "é".repeat(60);
    assert_eq!(format_value_for_grid(&CellValue::Text(within.clone())), within);
}

#[test]
fn grid_blobs() {
    assert_eq!(format_value_for_grid(&CellValue::Blob(vec![])), "[BLOB 0B]");
    assert_eq!(format_value_for_grid(&CellValue::Blob(vec![0xde, 0xad])), "[BLOB] DE AD");
    assert_eq!(
        format_value_for_grid(&CellValue::Blob((0u8..8).collect())),
        "[BLOB] 00 01 02 03 04 05 06 07"
    );
    assert_eq!(
        format_value_for_grid(&CellValue::Blob((0u8..10).collect())),
        "[BLOB 10B] 00 01 02 03 04 05 06 07"
    );
}

#[test]
fn inspector_scalars() {
    assert_eq!(format_value_for_inspector(&CellValue::Null), "NULL");
    assert_eq!(format_value_for_inspector(&CellValue::Integer(7)), "INTEGER: 7");
    assert_eq!(format_value_for_inspector(&CellValue::Integer(-7)), "INTEGER: -7");
    assert_eq!(
        format_value_for_inspector(&CellValue::Real("2.5".to_string())),
        "REAL: 2.5"
    );
}

#[test]
fn inspector_text_counts_bytes() {
    assert_eq!(
        format_value_for_inspector(&CellValue::Text("héllo".to_string())),
        "TEXT (6 chars):\nhéllo"
    );
    let long = "x".repeat(300);
    assert_eq!(
        format_value_for_inspector(&CellValue::Text(long.clone())),
        format!("TEXT (300 chars):\n{}", long)
    );
}

#[test]
fn inspector_small_blob_dump() {
    let expected = format!(
        "BLOB (3 bytes, 0x3)\n\n{:08x}  {:<47}  |{}|\n",
        0, "41 42 00", "AB."
    );
    assert_eq!(
        format_value_for_inspector(&CellValue::Blob(vec![0x41, 0x42, 0x00])),
        expected
    );
}

#[test]
fn inspector_empty_blob() {
    assert_eq!(
        format_value_for_inspector(&CellValue::Blob(vec![])),
        "BLOB (0 bytes, 0x0)\n\n"
    );
}

#[test]
fn inspector_two_line_dump() {
    let bytes: Vec<u8> = (0x30u8..0x41).collect(); // 17 bytes
    let out = format_value_for_inspector(&CellValue::Blob(bytes));
    let expected = String::from("BLOB (17 bytes, 0x11)\n\n")
        + "00000000  30 31 32 33 34 35 36 37 38 39 3a 3b 3c 3d 3e 3f  |0123456789:;<=>?|\n"
        + &format!("00000010  {:<47}  |@|\n", "40");
    assert_eq!(out, expected);
}

#[test]
fn inspector_dump_shows_control_and_high_bytes_as_dots() {
    let out = format_value_for_inspector(&CellValue::Blob(vec![0x1f, 0x20, 0x7e, 0x7f, 0xff]));
    let expected = format!(
        "BLOB (5 bytes, 0x5)\n\n00000000  {:<47}  |. ~..|\n",
        "1f 20 7e 7f ff"
    );
    assert_eq!(out, expected);
}

#[test]
fn inspector_large_blob_is_truncated() {
    let bytes: Vec<u8> = (0..4100u32).map(|i| (i % 256) as u8).collect();
    let out = format_value_for_inspector(&CellValue::Blob(bytes));
    assert!(out.starts_with("BLOB (4100 bytes, 0x1004)\n\n00000000  00 01 02"));
    assert!(out.ends_with("\n\n... (4 more bytes truncated for display)\n"));
    let dump_lines = out.lines().filter(|l| l.len() == 77).count();
    assert_eq!(dump_lines, 256);
    assert!(out.contains("\n00000ff0  f0 f1 f2 f3 f4 f5 f6 f7 f8 f9 fa fb fc fd fe ff  |................|\n"));
}

#[test]
fn dump_lines_have_aligned_columns() {
    let bytes: Vec<u8> = (0..40u8).collect();
    let out = format_value_for_inspector(&CellValue::Blob(bytes));
    let lines: Vec<&str> = out.lines().skip(2).collect();
    assert_eq!(lines.len(), 3);
    assert_eq!(lines[0].chars().count(), 62 + 16 - 1);
    assert_eq!(lines[1].chars().count(), 62 + 16 - 1);
    assert_eq!(lines[2].chars().count(), 62 + 8 - 1);
    for line in &lines {
        assert_eq!(&line[57..60], "  |");
    }
}

#[test]
fn storage_class_names() {
    assert_eq!(CellValue::Null.storage_class(), "NULL");
    assert_eq!(CellValue::Integer(1).storage_class(), "INTEGER");
    assert_eq!(CellValue::Real("1".to_string()).storage_class(), "REAL");
    assert_eq!(CellValue::Text(String::new()).storage_class(), "TEXT");
    assert_eq!(CellValue::Blob(vec![]).storage_class(), "BLOB");
}
