//! The page cache. It maps page numbers to page-sized buffers, decides when
//! a page has to be read from the file, and mirrors every saved row.
//!
//! The pager never reads or writes the file itself. `page_request` says what
//! to read; `get_page`, `get_row` and `save_row` take what was read; and
//! `save_row` returns where in the file the row has to be written.

use crate::bytes::{overwritten, pad_bytes, read_bytes, write_bytes, zero_padded};
use crate::{Page, RowLine, PAGE_SIZE, ROWS_PER_PAGE, ROW_SIZE, TABLE_MAX_PAGES};
use vstd::prelude::*;

verus! {

/// The page that holds row `row`.
pub open spec fn page_of_row(row: int) -> int {
    row / (ROWS_PER_PAGE as int)
}

/// Where row `row` starts within its page.
pub open spec fn offset_in_page(row: int) -> int {
    (row % (ROWS_PER_PAGE as int)) * ROW_SIZE
}

/// Where row `row` starts within the file.
pub open spec fn offset_in_file(row: int) -> int {
    page_of_row(row) * PAGE_SIZE + offset_in_page(row)
}

/// The number of pages that a file of `file_length` bytes has begun,
/// a partial page at its end included.
pub open spec fn pages_in_file(file_length: int) -> int {
    file_length / (PAGE_SIZE as int) + if file_length % (PAGE_SIZE as int) > 0 {
        1int
    } else {
        0int
    }
}

/// A page as it stands in memory after `read` came back from the file:
/// the bytes read, zero-filled up to `PAGE_SIZE`.
pub open spec fn page_image(read: Seq<u8>) -> Seq<u8> {
    zero_padded(read, PAGE_SIZE as nat)
}

/// The bytes of row `row` within the page that holds it.
pub open spec fn row_in_page(page: Seq<u8>, row: int) -> Seq<u8> {
    page.subrange(offset_in_page(row), offset_in_page(row) + ROW_SIZE)
}

/// The page with row `row` replaced by `bytes`.
pub open spec fn page_with_row(page: Seq<u8>, row: int, bytes: Seq<u8>) -> Seq<u8> {
    overwritten(page, offset_in_page(row), bytes)
}

/// What can go wrong in the pager.
#[derive(Debug, Clone, Copy, PartialEq, Eq)]
pub enum Error {
    /// A page number at or beyond `TABLE_MAX_PAGES`.
    PageOutOfBounds,
}

/// The pager's state: the last known length of the file, and the pages
/// that are in memory, by page number.
pub struct PagerView {
    pub file_length: nat,
    pub pages: Map<int, Seq<u8>>,
}

impl PagerView {
    /// Cached pages have a valid number and a full page of bytes.
    pub open spec fn wf(self) -> bool {
        forall|p: int| #[trigger]
            self.pages.contains_key(p) ==> 0 <= p < TABLE_MAX_PAGES && self.pages[p].len()
                == PAGE_SIZE
    }

    /// The file offset that has to be read before page `page` can be
    /// handed out: none when the page is cached, and none when the file
    /// ends before the page begins.
    pub open spec fn request(self, page: int) -> Option<int> {
        if !self.pages.contains_key(page) && page < pages_in_file(self.file_length as int) {
            Some(page * PAGE_SIZE)
        } else {
            None
        }
    }

    /// Page `page` as the pager hands it out, when `read` is what the file
    /// gave: the cached page if there is one, else the bytes read, else (the
    /// file ends before the page) zeros.
    pub open spec fn page(self, page: int, read: Seq<u8>) -> Seq<u8> {
        if self.pages.contains_key(page) {
            self.pages[page]
        } else if page < pages_in_file(self.file_length as int) {
            page_image(read)
        } else {
            page_image(Seq::<u8>::empty())
        }
    }

    /// The state after page `page` was handed out.
    pub open spec fn load(self, page: int, read: Seq<u8>) -> PagerView {
        PagerView { pages: self.pages.insert(page, self.page(page, read)), ..self }
    }

    /// The state after row `row` was saved as `bytes`: its page is cached
    /// with the row in place, and the file is known to reach the row's end.
    pub open spec fn save(self, row: int, bytes: Seq<u8>, read: Seq<u8>) -> PagerView {
        let page = page_of_row(row);
        let end = offset_in_file(row) + ROW_SIZE;
        PagerView {
            file_length: if end > self.file_length {
                end as nat
            } else {
                self.file_length
            },
            pages: self.pages.insert(page, page_with_row(self.page(page, read), row, bytes)),
        }
    }
}

/// A saved row is the row that the pager hands out afterwards, whatever
/// is read from the file later, and whatever the row's page held before.
pub proof fn lemma_saved_row_is_handed_out(
    pager: PagerView,
    row: int,
    bytes: Seq<u8>,
    read: Seq<u8>,
    read_later: Seq<u8>,
)
    requires
        pager.wf(),
        0 <= row,
        bytes.len() == ROW_SIZE,
    ensures
        row_in_page(pager.save(row, bytes, read).page(page_of_row(row), read_later), row) == bytes,
{
}

/// Saving a row leaves every other cached row as it was, in the row's own
/// page and in every other one.
pub proof fn lemma_save_keeps_cached_rows(
    pager: PagerView,
    row: int,
    bytes: Seq<u8>,
    read: Seq<u8>,
    other: int,
    read_later: Seq<u8>,
)
    requires
        pager.wf(),
        0 <= row,
        0 <= other,
        other != row,
        bytes.len() == ROW_SIZE,
        pager.pages.contains_key(page_of_row(other)),
    ensures
        row_in_page(pager.save(row, bytes, read).page(page_of_row(other), read_later), other)
            == row_in_page(pager.pages[page_of_row(other)], other),
{
}

/// The page cache of one table file.
pub struct Pager {
    file_length: usize,
    pages: Vec<Option<Page>>,
}

impl View for Pager {
    type V = PagerView;

    closed spec fn view(&self) -> PagerView {
        PagerView {
            file_length: self.file_length as nat,
            pages: Map::new(
                |p: int| 0 <= p < self.pages@.len() && self.pages@[p] is Some,
                |p: int| self.pages@[p]->Some_0@,
            ),
        }
    }
}

impl Pager {
    #[verifier::type_invariant]
    pub(crate) closed spec fn inv(self) -> bool {
        self.pages@.len() == TABLE_MAX_PAGES
    }

    /// A pager's state is always well-formed.
    pub(crate) proof fn lemma_view_wf(self)
        requires
            self.inv(),
        ensures
            self@.wf(),
    {
    }

    /// A pager for a file of `file_length` bytes, with nothing cached.
    pub fn open(file_length: usize) -> (pager: Self)
        ensures
            pager@ == (PagerView { file_length: file_length as nat, pages: Map::empty() }),
            pager@.wf(),
    {
        let mut pages: Vec<Option<Page>> = Vec::new();
        let mut i: usize = 0;
        while i < TABLE_MAX_PAGES
            invariant
                i <= TABLE_MAX_PAGES,
                pages@.len() == i,
                forall|k: int| 0 <= k < i ==> pages@[k] is None,
            decreases TABLE_MAX_PAGES - i,
        {
            pages.push(None);
            i += 1;
        }
        let pager = Self { file_length, pages };
        assert(pager@.pages =~= Map::<int, Seq<u8>>::empty());
        pager
    }

    /// The length of the file as far as the pager knows it.
    pub fn file_length(&self) -> (length: usize)
        ensures
            length == self@.file_length,
    {
        self.file_length
    }

    /// The offset at which the caller has to read `PAGE_SIZE` bytes (fewer if
    /// the file ends) before it asks for page `page_num`; `None` when the
    /// pager needs nothing from the file for that page.
    pub fn page_request(&self, page_num: usize) -> (r: Result<Option<u64>, Error>)
        ensures
            self@.wf(),
            page_num >= TABLE_MAX_PAGES ==> r == Err::<Option<u64>, Error>(Error::PageOutOfBounds),
            page_num < TABLE_MAX_PAGES ==> r is Ok && match self@.request(page_num as int) {
                Some(offset) => r->Ok_0 == Some(offset as u64),
                None => r->Ok_0 is None,
            },
    {
        if page_num >= TABLE_MAX_PAGES {
            proof {
                use_type_invariant(self);
            }
            return Err(Error::PageOutOfBounds);
        }
        Ok(self.request_at(page_num))
    }

    /// `page_request` for a page number that is known to be in bounds.
    pub(crate) fn request_at(&self, page_num: usize) -> (request: Option<u64>)
        requires
            page_num < TABLE_MAX_PAGES,
        ensures
            self@.wf(),
            match self@.request(page_num as int) {
                Some(offset) => request == Some(offset as u64),
                None => request is None,
            },
    {
        proof {
            use_type_invariant(self);
        }
        if self.pages[page_num].is_none() && page_num < self.pages_in_file() {
            Some((page_num * PAGE_SIZE) as u64)
        } else {
            None
        }
    }

    /// Hands out page `page_num` and keeps it cached. `read` is what the
    /// file gave for `page_request(page_num)`; it is looked at only where
    /// that request named an offset.
    pub fn get_page(&mut self, page_num: usize, read: &[u8]) -> (r: Result<Page, Error>)
        ensures
            final(self)@.wf(),
            page_num >= TABLE_MAX_PAGES ==> r == Err::<Page, Error>(Error::PageOutOfBounds)
                && final(self)@ == old(self)@,
            page_num < TABLE_MAX_PAGES ==> r is Ok && r->Ok_0@ == old(self)@.page(
                page_num as int,
                read@,
            ) && final(self)@ == old(self)@.load(page_num as int, read@),
    {
        if page_num >= TABLE_MAX_PAGES {
            proof {
                use_type_invariant(&*self);
            }
            return Err(Error::PageOutOfBounds);
        }
        Ok(self.page_at(page_num, read))
    }

    /// `get_page` for a page number that is known to be in bounds.
    pub(crate) fn page_at(&mut self, page_num: usize, read: &[u8]) -> (page: Page)
        requires
            page_num < TABLE_MAX_PAGES,
        ensures
            final(self)@.wf(),
            page@ == old(self)@.page(page_num as int, read@),
            final(self)@ == old(self)@.load(page_num as int, read@),
    {
        proof {
            use_type_invariant(&*self);
        }
        let cached: Option<Page> = self.pages[page_num];
        match cached {
            Some(page) => {
                assert(self@.pages =~= old(self)@.load(page_num as int, read@).pages);
                page
            },
            None => {
                // Cache miss: the page comes from the file if the file
                // reaches it, and starts out blank if not.
                let page: Page = if page_num < self.pages_in_file() {
                    pad_bytes::<PAGE_SIZE>(read)
                } else {
                    [0u8; PAGE_SIZE]
                };
                assert(page@ =~= old(self)@.page(page_num as int, read@));
                self.pages[page_num] = Some(page);
                assert(self@.pages =~= old(self)@.load(page_num as int, read@).pages);
                page
            },
        }
    }

    /// The stored bytes of row `row_num`, out of its page. `read` is what
    /// the file gave for the request of the row's page.
    pub fn get_row(&mut self, row_num: usize, read: &[u8]) -> (r: Result<RowLine, Error>)
        ensures
            final(self)@.wf(),
            page_of_row(row_num as int) >= TABLE_MAX_PAGES ==> r == Err::<RowLine, Error>(
                Error::PageOutOfBounds,
            ) && final(self)@ == old(self)@,
            page_of_row(row_num as int) < TABLE_MAX_PAGES ==> r is Ok && r->Ok_0@ == row_in_page(
                old(self)@.page(page_of_row(row_num as int), read@),
                row_num as int,
            ) && final(self)@ == old(self)@.load(page_of_row(row_num as int), read@),
    {
        if Self::page_num(row_num) >= TABLE_MAX_PAGES {
            proof {
                use_type_invariant(&*self);
            }
            return Err(Error::PageOutOfBounds);
        }
        Ok(self.row_at(row_num, read))
    }

    /// `get_row` for a row whose page is known to be in bounds.
    pub(crate) fn row_at(&mut self, row_num: usize, read: &[u8]) -> (row: RowLine)
        requires
            page_of_row(row_num as int) < TABLE_MAX_PAGES,
        ensures
            final(self)@.wf(),
            row@ == row_in_page(
                old(self)@.page(page_of_row(row_num as int), read@),
                row_num as int,
            ),
            final(self)@ == old(self)@.load(page_of_row(row_num as int), read@),
    {
        let page: Page = self.page_at(Self::page_num(row_num), read);
        let start: usize = Self::offset(row_num);
        read_bytes::<ROW_SIZE>(page.as_slice(), start)
    }

    /// Records that row `row_num` now holds `row`, and returns the offset
    /// in the file at which the caller has to write these bytes. The row's
    /// page is cached with the row in place; `read` is what the file gave
    /// for the request of that page.
    pub fn save_row(&mut self, row_num: usize, row: RowLine, read: &[u8]) -> (r: Result<
        u64,
        Error,
    >)
        ensures
            final(self)@.wf(),
            page_of_row(row_num as int) >= TABLE_MAX_PAGES ==> r == Err::<u64, Error>(
                Error::PageOutOfBounds,
            ) && final(self)@ == old(self)@,
            page_of_row(row_num as int) < TABLE_MAX_PAGES ==> r == Ok::<u64, Error>(
                offset_in_file(row_num as int) as u64,
            ) && final(self)@ == old(self)@.save(row_num as int, row@, read@),
    {
        if Self::page_num(row_num) >= TABLE_MAX_PAGES {
            proof {
                use_type_invariant(&*self);
            }
            return Err(Error::PageOutOfBounds);
        }
        Ok(self.store_row(row_num, row, read))
    }

    /// `save_row` for a row whose page is known to be in bounds.
    pub(crate) fn store_row(&mut self, row_num: usize, row: RowLine, read: &[u8]) -> (file_offset:
        u64)
        requires
            page_of_row(row_num as int) < TABLE_MAX_PAGES,
        ensures
            final(self)@.wf(),
            file_offset == offset_in_file(row_num as int),
            final(self)@ == old(self)@.save(row_num as int, row@, read@),
    {
        let page_num: usize = Self::page_num(row_num);
        let mut page: Page = self.page_at(page_num, read);
        proof {
            use_type_invariant(&*self);
        }
        let ghost loaded = self@;
        let offset: usize = Self::offset(row_num);
        write_bytes(&mut page, offset, row.as_slice());
        self.pages[page_num] = Some(page);
        let file_offset: usize = page_num * PAGE_SIZE + offset;
        if file_offset + ROW_SIZE > self.file_length {
            self.file_length = file_offset + ROW_SIZE;
        }
        proof {
            let saved = old(self)@.save(row_num as int, row@, read@);
            assert(self@.pages =~= loaded.pages.insert(page_num as int, page@));
            assert(self@.pages =~= saved.pages);
        }
        file_offset as u64
    }

    /// Drops every cached page. Nothing is lost: each saved row was handed
    /// to the caller for writing when it was saved.
    pub fn free(&mut self)
        ensures
            final(self)@ == (PagerView { pages: Map::empty(), ..old(self)@ }),
            final(self)@.wf(),
    {
        proof {
            use_type_invariant(&*self);
        }
        let mut i: usize = 0;
        while i < TABLE_MAX_PAGES
            invariant
                i <= TABLE_MAX_PAGES,
                self.pages@.len() == TABLE_MAX_PAGES,
                self.file_length == old(self).file_length,
                forall|k: int| 0 <= k < i ==> self.pages@[k] is None,
            decreases TABLE_MAX_PAGES - i,
        {
            self.pages[i] = None;
            i += 1;
        }
        assert(self@.pages =~= Map::<int, Seq<u8>>::empty());
    }

    /// The number of the page that holds row `row_num`.
    pub fn page_num(row_num: usize) -> (page_num: usize)
        ensures
            page_num == page_of_row(row_num as int),
    {
        row_num / ROWS_PER_PAGE
    }

    /// Where row `row_num` starts within its page.
    pub fn offset(row_num: usize) -> (offset: usize)
        ensures
            offset == offset_in_page(row_num as int),
            offset + ROW_SIZE <= PAGE_SIZE,
    {
        let row_offset: usize = row_num % ROWS_PER_PAGE;
        row_offset * ROW_SIZE
    }

    /// How many pages the file has begun, as far as the pager knows.
    fn pages_in_file(&self) -> (num_pages: usize)
        ensures
            num_pages == pages_in_file(self@.file_length as int),
    {
        let mut num_pages: usize = self.file_length / PAGE_SIZE;
        // The file may end in a partial page.
        if self.file_length % PAGE_SIZE > 0 {
            num_pages += 1;
        }
        num_pages
    }
}

} // verus!
