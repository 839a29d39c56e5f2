use rs_sqlite::cursor::Cursor;
use rs_sqlite::{ROWS_PER_PAGE, ROW_SIZE};

#[test]
fn cursor_starts_at_the_first_row() {
    let cursor = Cursor::table_start(3);
    assert!(!cursor.is_end());
    assert_eq!(cursor.row_num(), 0);
    assert_eq!(cursor.offset(), 0);
}

#[test]
fn cursor_of_an_empty_table_starts_at_the_end() {
    let cursor = Cursor::table_start(0);
    assert!(cursor.is_end());
    assert_eq!(cursor.row_num(), 0);
}

#[test]
fn cursor_at_table_end_remembers_the_row_count() {
    let cursor = Cursor::table_end(5);
    assert!(cursor.is_end());
    assert_eq!(cursor.row_num(), 5);
    let cursor = Cursor::table_end(0);
    assert!(cursor.is_end());
}

#[test]
fn cursor_reaches_the_end_after_the_last_row() {
    let mut cursor = Cursor::table_start(3);
    cursor.advance(3);
    assert!(!cursor.is_end());
    assert_eq!(cursor.row_num(), 1);
    cursor.advance(3);
    assert!(!cursor.is_end());
    assert_eq!(cursor.row_num(), 2);
    cursor.advance(3);
    assert!(cursor.is_end());
    assert_eq!(cursor.row_num(), 3);
}

#[test]
fn cursor_visits_every_row_once() {
    let num_rows = 2 * ROWS_PER_PAGE + 3;
    let mut seen = Vec::new();
    let mut cursor = Cursor::table_start(num_rows);
    while !cursor.is_end() {
        seen.push(cursor.row_num());
        cursor.advance(num_rows);
    }
    assert_eq!(seen, (0..num_rows).collect::<Vec<usize>>());
}

#[test]
fn cursor_offset_wraps_at_the_page_boundary() {
    let num_rows = 2 * ROWS_PER_PAGE;
    let mut cursor = Cursor::table_start(num_rows);
    cursor.advance(num_rows);
    assert_eq!(cursor.offset(), ROW_SIZE);
    for _ in 1..ROWS_PER_PAGE - 1 {
        cursor.advance(num_rows);
    }
    assert_eq!(cursor.row_num(), ROWS_PER_PAGE - 1);
    assert_eq!(cursor.offset(), 13 * 291);
    cursor.advance(num_rows);
    assert_eq!(cursor.row_num(), ROWS_PER_PAGE);
    assert_eq!(cursor.offset(), 0);
}
