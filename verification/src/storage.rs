//! What a table and its file have to do with each other, for a caller that
//! carries out the table's requests as they are given: the table agrees with
//! the file, a scan yields the rows that the file holds, inserts append to
//! them in order, and the rows are still there when the cache is dropped or
//! the file is opened anew.

use crate::file::{
    file_page, file_row, file_write, lemma_file_page_bytes, lemma_open_mirrors,
    lemma_other_rows_untouched, lemma_page_is_file_page, lemma_save_mirrors,
    lemma_written_row_reads_back,
};
use crate::pager::{offset_in_file, page_of_row};
use crate::table::{nth_read, pages_for_rows, TableView};
use crate::{lemma_row_round_trip, row_decoding, row_encoding, RowView};
use crate::{PAGE_SIZE, ROW_SIZE, TABLE_MAX_PAGES, TABLE_MAX_ROWS};
use vstd::prelude::*;

verus! {

impl TableView {
    /// The table agrees with the file.
    pub open spec fn mirrors(self, file: Seq<u8>) -> bool {
        &&& self.wf()
        &&& self.pager.mirrors(file)
    }

    /// `reads` answers the pager's requests for every page that holds a
    /// row: see `PagerView::answered_by`.
    pub open spec fn answered_by(self, reads: Seq<Seq<u8>>, file: Seq<u8>) -> bool {
        forall|p: int|
            0 <= p < pages_for_rows(self.num_rows as int) ==> #[trigger] self.pager.answered_by(
                p,
                nth_read(reads, p),
                file,
            )
    }
}

/// The first `num_rows` rows that the file holds, in index order.
pub open spec fn file_rows(file: Seq<u8>, num_rows: nat) -> Seq<RowView> {
    Seq::new(num_rows, |index: int| row_decoding(file_row(file, index)))
}

/// The length of a file that holds `num_rows` rows and nothing after them.
pub open spec fn rows_end(num_rows: int) -> int {
    if num_rows <= 0 {
        0
    } else {
        offset_in_file(num_rows - 1) + ROW_SIZE
    }
}

/// A table that was just opened agrees with its file.
pub proof fn lemma_opened_mirrors(file: Seq<u8>)
    requires
        file.len() / (ROW_SIZE as nat) <= TABLE_MAX_ROWS,
    ensures
        TableView::opened(file.len()).mirrors(file),
{
    lemma_open_mirrors(file);
}

/// With its requests answered, a scan yields the rows that the file holds,
/// in index order, and leaves the table in agreement with the file.
pub proof fn lemma_scan_reads_file(table: TableView, file: Seq<u8>, reads: Seq<Seq<u8>>)
    requires
        table.mirrors(file),
        table.answered_by(reads, file),
    ensures
        table.rows(reads) == file_rows(file, table.num_rows),
        table.scanned(reads).mirrors(file),
{
    assert forall|i: int| 0 <= i < table.num_rows implies table.row(i, reads)
        == row_decoding(file_row(file, i)) by {
        let page = page_of_row(i);
        lemma_page_is_file_page(table.pager, file, page, nth_read(reads, page));
    }
    let scanned = table.scanned(reads);
    assert forall|p: int| #[trigger] scanned.pager.pages.contains_key(p) implies 0 <= p
        < TABLE_MAX_PAGES && scanned.pager.pages[p].len() == PAGE_SIZE && scanned.pager.pages[p]
        == file_page(file, p) by {
        if !table.pager.pages.contains_key(p) {
            lemma_page_is_file_page(table.pager, file, p, nth_read(reads, p));
            lemma_file_page_bytes(file, p);
        }
    }
}

/// An insert into a table with room, written to the file where `insert`
/// says, appends the row: the file then holds the rows it held, followed by
/// the new row, and the table agrees with the file.
pub proof fn lemma_insert_appends(table: TableView, file: Seq<u8>, row: RowView, read: Seq<u8>)
    requires
        table.mirrors(file),
        table.num_rows < TABLE_MAX_ROWS,
        row.wf(),
        table.pager.answered_by(page_of_row(table.num_rows as int), read, file),
    ensures
        ({
            let written = file_write(
                file,
                offset_in_file(table.num_rows as int),
                row_encoding(row),
            );
            &&& table.inserted(row, read).mirrors(written)
            &&& file_rows(written, table.num_rows + 1) == file_rows(file, table.num_rows).push(row)
        }),
{
    let at = table.num_rows as int;
    let bytes = row_encoding(row);
    let written = file_write(file, offset_in_file(at), bytes);
    lemma_row_round_trip(row);
    lemma_save_mirrors(table.pager, file, at, bytes, read);
    lemma_written_row_reads_back(file, at, bytes);
    assert forall|i: int| 0 <= i < at implies file_row(written, i) == file_row(file, i) by {
        lemma_other_rows_untouched(file, at, bytes, i);
    }
}

/// The file after a run of inserts into a table of `num_rows` rows, each
/// written where `insert` says; inserts into a full table write nothing.
pub open spec fn file_after_inserts(file: Seq<u8>, num_rows: nat, rows: Seq<RowView>) -> Seq<u8>
    decreases rows.len(),
{
    if rows.len() == 0 {
        file
    } else {
        let before = file_after_inserts(file, num_rows, rows.drop_last());
        let at = num_rows + rows.len() - 1;
        if at < TABLE_MAX_ROWS {
            file_write(before, offset_in_file(at), row_encoding(rows.last()))
        } else {
            before
        }
    }
}

/// Each read of a run of inserts answers the request of its insert, as
/// the table and the file stand when that insert is made.
pub open spec fn inserts_answered(
    table: TableView,
    file: Seq<u8>,
    rows: Seq<RowView>,
    reads: Seq<Seq<u8>>,
) -> bool
    decreases rows.len(),
{
    if rows.len() == 0 {
        true
    } else {
        let before = table.insert_all(rows.drop_last(), reads);
        &&& inserts_answered(table, file, rows.drop_last(), reads)
        &&& before.pager.answered_by(
            page_of_row(before.num_rows as int),
            nth_read(reads, rows.len() - 1),
            file_after_inserts(file, table.num_rows, rows.drop_last()),
        )
    }
}

/// Rows come back in the order in which they went in. After a run of
/// inserts that the table has room for, each written to the file where
/// `insert` says, the table agrees with the file, and the file holds the
/// rows it held before, followed by the inserted rows in their order. (What
/// a scan then yields is what the file holds: `lemma_scan_reads_file`.)
pub proof fn lemma_inserts_append_in_order(
    table: TableView,
    file: Seq<u8>,
    rows: Seq<RowView>,
    reads: Seq<Seq<u8>>,
)
    requires
        table.mirrors(file),
        table.num_rows + rows.len() <= TABLE_MAX_ROWS,
        forall|k: int| 0 <= k < rows.len() ==> (#[trigger] rows[k]).wf(),
        inserts_answered(table, file, rows, reads),
    ensures
        table.insert_all(rows, reads).num_rows == table.num_rows + rows.len(),
        table.insert_all(rows, reads).mirrors(file_after_inserts(file, table.num_rows, rows)),
        file_rows(
            file_after_inserts(file, table.num_rows, rows),
            table.num_rows + rows.len(),
        ) == file_rows(file, table.num_rows) + rows,
    decreases rows.len(),
{
    if rows.len() > 0 {
        let earlier = rows.drop_last();
        lemma_inserts_append_in_order(table, file, earlier, reads);
        let before = table.insert_all(earlier, reads);
        let file_before = file_after_inserts(file, table.num_rows, earlier);
        lemma_insert_appends(before, file_before, rows.last(), nth_read(reads, rows.len() - 1));
    }
}

/// Dropping the cache loses no row: a table that agreed with its file
/// still does after `free`, and a scan yields the same rows as before.
pub proof fn lemma_free_keeps_rows(
    table: TableView,
    file: Seq<u8>,
    reads: Seq<Seq<u8>>,
    reads_freed: Seq<Seq<u8>>,
)
    requires
        table.mirrors(file),
        table.answered_by(reads, file),
        table.freed().answered_by(reads_freed, file),
    ensures
        table.freed().mirrors(file),
        table.freed().rows(reads_freed) == table.rows(reads),
{
    lemma_scan_reads_file(table, file, reads);
    lemma_scan_reads_file(table.freed(), file, reads_freed);
}

/// A file that holds `num_rows` rows and nothing after them is reopened
/// with the same row count exactly when it holds no more than 196 rows:
/// from there on the unused tails of its pages add up to a row's length,
/// and the count that `db_open` derives from the file's length runs ahead.
pub proof fn lemma_reopened_count(num_rows: int)
    requires
        0 <= num_rows <= TABLE_MAX_ROWS,
    ensures
        rows_end(num_rows) / (ROW_SIZE as int) == num_rows <==> num_rows <= 196,
{
}

/// Rows outlast the table that wrote them. Take a table that agrees with
/// its file, and let the file's length give back the table's row count
/// (for a file that ends with its last row, see `lemma_reopened_count`). A
/// table opened anew on that file has the same rows: a scan of it yields
/// what a scan of the first table yields, in the same order.
pub proof fn lemma_reopen_keeps_rows(
    table: TableView,
    file: Seq<u8>,
    reads: Seq<Seq<u8>>,
    reads_reopened: Seq<Seq<u8>>,
)
    requires
        table.mirrors(file),
        file.len() / (ROW_SIZE as nat) == table.num_rows,
        table.answered_by(reads, file),
        TableView::opened(file.len()).answered_by(reads_reopened, file),
    ensures
        TableView::opened(file.len()).mirrors(file),
        TableView::opened(file.len()).rows(reads_reopened) == table.rows(reads),
{
    lemma_opened_mirrors(file);
    lemma_scan_reads_file(table, file, reads);
    lemma_scan_reads_file(TableView::opened(file.len()), file, reads_reopened);
}

/// A file that holds exactly a table's rows still does after an insert.
pub proof fn lemma_insert_extends_file(file: Seq<u8>, num_rows: int, bytes: Seq<u8>)
    requires
        0 <= num_rows < TABLE_MAX_ROWS,
        file.len() == rows_end(num_rows),
        bytes.len() == ROW_SIZE,
    ensures
        file_write(file, offset_in_file(num_rows), bytes).len() == rows_end(num_rows + 1),
{
}

} // verus!
