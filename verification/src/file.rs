//! The file as the library expects it to behave, and what follows for a
//! caller that carries out the pager's requests as they are given.
//!
//! The library never touches the file, so nothing here is executable: the
//! file is a sequence of bytes, a positioned write replaces a range of it
//! (and lengthens it with zeros where it writes past the end), and a
//! positioned read returns what is there, cut short at the end.

use crate::pager::{
    offset_in_file, page_image, page_of_row, pages_in_file, row_in_page, PagerView,
};
use crate::{PAGE_SIZE, ROW_SIZE, TABLE_MAX_PAGES, TABLE_MAX_ROWS};
use vstd::prelude::*;

verus! {

/// What a read of up to `len` bytes at `offset` returns.
pub open spec fn file_read(file: Seq<u8>, offset: int, len: int) -> Seq<u8> {
    if 0 <= offset < file.len() && 0 <= len {
        file.subrange(
            offset,
            if offset + len <= file.len() {
                offset + len
            } else {
                file.len() as int
            },
        )
    } else {
        Seq::empty()
    }
}

/// The file after `bytes` were written at `offset`.
pub open spec fn file_write(file: Seq<u8>, offset: int, bytes: Seq<u8>) -> Seq<u8> {
    Seq::new(
        if offset + bytes.len() > file.len() {
            (offset + bytes.len()) as nat
        } else {
            file.len()
        },
        |i: int|
            if offset <= i < offset + bytes.len() {
                bytes[i - offset]
            } else if i < file.len() {
                file[i]
            } else {
                0u8
            },
    )
}

/// Page `page` of the file, as a full read of it fills a page buffer.
pub open spec fn file_page(file: Seq<u8>, page: int) -> Seq<u8> {
    page_image(file_read(file, page * PAGE_SIZE, PAGE_SIZE as int))
}

/// The stored bytes of row `row` in the file.
pub open spec fn file_row(file: Seq<u8>, row: int) -> Seq<u8> {
    row_in_page(file_page(file, page_of_row(row)), row)
}

impl PagerView {
    /// The pager agrees with the file: it knows the file's length, and
    /// every cached page holds what the file holds.
    pub open spec fn mirrors(self, file: Seq<u8>) -> bool {
        &&& self.wf()
        &&& self.file_length == file.len()
        &&& forall|p: int| #[trigger]
            self.pages.contains_key(p) ==> self.pages[p] == file_page(file, p)
    }

    /// `read` answers the pager's request for page `page`: where the pager
    /// asked for a read, `read` is what the file returns for it. Where it
    /// asked for nothing, any `read` will do.
    pub open spec fn answered_by(self, page: int, read: Seq<u8>, file: Seq<u8>) -> bool {
        self.request(page) matches Some(offset) ==> read == file_read(
            file,
            offset,
            PAGE_SIZE as int,
        )
    }
}

/// A page of the file, byte by byte: the file's byte where the file has
/// one, zero beyond its end.
pub proof fn lemma_file_page_bytes(file: Seq<u8>, page: int)
    requires
        0 <= page,
    ensures
        file_page(file, page).len() == PAGE_SIZE,
        forall|i: int|
            0 <= i < PAGE_SIZE ==> #[trigger] file_page(file, page)[i] == (if page * PAGE_SIZE + i
                < file.len() {
                file[page * PAGE_SIZE + i]
            } else {
                0u8
            }),
{
}

/// A pager that was just opened on a file agrees with it.
pub proof fn lemma_open_mirrors(file: Seq<u8>)
    ensures
        (PagerView { file_length: file.len(), pages: Map::empty() }).mirrors(file),
{
}

/// Dropping the cache keeps the pager in agreement with the file.
pub proof fn lemma_free_mirrors(pager: PagerView, file: Seq<u8>)
    requires
        pager.mirrors(file),
    ensures
        (PagerView { pages: Map::empty(), ..pager }).mirrors(file),
{
}

/// With its request answered, the pager hands out the page as it stands
/// in the file, and still agrees with the file afterwards.
pub proof fn lemma_page_is_file_page(pager: PagerView, file: Seq<u8>, page: int, read: Seq<u8>)
    requires
        pager.mirrors(file),
        0 <= page < TABLE_MAX_PAGES,
        pager.answered_by(page, read, file),
    ensures
        pager.page(page, read) == file_page(file, page),
        pager.load(page, read).mirrors(file),
{
    lemma_file_page_bytes(file, page);
}

/// A row written into the file is what the file holds for that row.
pub proof fn lemma_written_row_reads_back(file: Seq<u8>, row: int, bytes: Seq<u8>)
    requires
        0 <= row < TABLE_MAX_ROWS,
        bytes.len() == ROW_SIZE,
    ensures
        file_row(file_write(file, offset_in_file(row), bytes), row) == bytes,
{
    let written = file_write(file, offset_in_file(row), bytes);
    lemma_file_page_bytes(written, page_of_row(row));
}

/// Writing one row leaves every other row of the file as it was, in the
/// same page or in another.
pub proof fn lemma_other_rows_untouched(file: Seq<u8>, row: int, bytes: Seq<u8>, other: int)
    requires
        0 <= row < TABLE_MAX_ROWS,
        0 <= other < TABLE_MAX_ROWS,
        other != row,
        bytes.len() == ROW_SIZE,
    ensures
        file_row(file_write(file, offset_in_file(row), bytes), other) == file_row(file, other),
{
    let written = file_write(file, offset_in_file(row), bytes);
    lemma_file_page_bytes(written, page_of_row(other));
    lemma_file_page_bytes(file, page_of_row(other));
}

/// Saving a row, and writing it where `save_row` says, keeps the pager in
/// agreement with the file.
pub proof fn lemma_save_mirrors(
    pager: PagerView,
    file: Seq<u8>,
    row: int,
    bytes: Seq<u8>,
    read: Seq<u8>,
)
    requires
        pager.mirrors(file),
        0 <= row < TABLE_MAX_ROWS,
        bytes.len() == ROW_SIZE,
        pager.answered_by(page_of_row(row), read, file),
    ensures
        pager.save(row, bytes, read).mirrors(file_write(file, offset_in_file(row), bytes)),
{
    let page = page_of_row(row);
    let written = file_write(file, offset_in_file(row), bytes);
    let saved = pager.save(row, bytes, read);
    lemma_page_is_file_page(pager, file, page, read);
    assert forall|p: int| #[trigger] saved.pages.contains_key(p) implies saved.pages[p]
        == file_page(written, p) && 0 <= p < TABLE_MAX_PAGES && saved.pages[p].len()
        == PAGE_SIZE by {
        lemma_file_page_bytes(written, p);
        lemma_file_page_bytes(file, p);
    }
}

} // verus!
