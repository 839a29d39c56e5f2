//! The table: a row count over a pager. Rows are appended at the end and
//! read back in the order in which they were inserted.

use crate::cursor::Cursor;
use crate::pager::{offset_in_file, page_of_row, row_in_page, Error, Pager, PagerView};
use crate::statement::{
    command_of, prepare_command, scanf_inputs, Command, CommandView, PrepareError, Statement,
    StatementView,
};
use crate::{row_decoding, row_encoding, DecodeError, Row, RowLine, RowView};
use crate::{ROW_SIZE, TABLE_MAX_PAGES, TABLE_MAX_ROWS};
use vstd::prelude::*;
use vstd::string::StringSliceAdditionalSpecFns;

verus! {

/// The number of pages that hold the first `num_rows` rows.
pub open spec fn pages_for_rows(num_rows: int) -> int {
    if num_rows <= 0 {
        0
    } else {
        page_of_row(num_rows - 1) + 1
    }
}

/// Entry `index` of a list of reads; nothing where the list has no such
/// entry.
pub open spec fn nth_read(reads: Seq<Seq<u8>>, index: int) -> Seq<u8> {
    if 0 <= index < reads.len() {
        reads[index]
    } else {
        Seq::empty()
    }
}

/// Why a row was not inserted.
#[derive(Debug, Clone, Copy, PartialEq, Eq)]
pub enum InsertError {
    /// The table already holds `TABLE_MAX_ROWS` rows.
    TableFull,
}

/// A write that the caller has to carry out on the file: `bytes`, at
/// `offset`, without touching anything else.
#[derive(Debug, Clone, Copy, PartialEq, Eq)]
pub struct RowWrite {
    pub offset: u64,
    pub bytes: RowLine,
}

/// What came of a statement.
#[derive(Debug, PartialEq, Eq)]
pub enum ExecuteResult {
    /// An `insert` into a full table: nothing was done.
    TableFull,
    /// An `insert`: the row is in the table once this write is in the file.
    Inserted(RowWrite),
    /// A `select`: the rows, in the order of insertion.
    Selected(Vec<Row>),
    /// A `select` that met bytes which are no row. Rows are cut out of
    /// pages in their full length, so this does not come about; it is here
    /// so that a failure to decode would be reported and not dropped.
    Unreadable(DecodeError),
}

/// What came of a line of input.
#[derive(Debug, PartialEq, Eq)]
pub enum RunResult {
    /// `.exit`: the table dropped its cache; the program is to leave.
    Exit,
    /// Another line that begins with a dot: nothing was done.
    Unrecognized,
    /// A line that is no statement: nothing was done.
    Invalid(PrepareError),
    /// A statement, and what came of it.
    Executed(ExecuteResult),
}

/// The table's state: how many rows it holds, and its pager.
pub struct TableView {
    pub num_rows: nat,
    pub pager: PagerView,
}

impl TableView {
    /// The row count is within capacity, and the pager's state is sound.
    pub open spec fn wf(self) -> bool {
        &&& self.num_rows <= TABLE_MAX_ROWS
        &&& self.pager.wf()
    }

    /// Row `index` as a scan reads it, when `reads` is what the file gave,
    /// by page number.
    pub open spec fn row(self, index: int, reads: Seq<Seq<u8>>) -> RowView {
        let page = page_of_row(index);
        row_decoding(row_in_page(self.pager.page(page, nth_read(reads, page)), index))
    }

    /// All rows in index order, which is the order of insertion.
    pub open spec fn rows(self, reads: Seq<Seq<u8>>) -> Seq<RowView> {
        Seq::new(self.num_rows, |index: int| self.row(index, reads))
    }

    /// The state after a scan: every page that holds a row is cached.
    pub open spec fn scanned(self, reads: Seq<Seq<u8>>) -> TableView {
        TableView {
            pager: PagerView {
                pages: Map::new(
                    |p: int|
                        self.pager.pages.contains_key(p) || 0 <= p < pages_for_rows(
                            self.num_rows as int,
                        ),
                    |p: int| self.pager.page(p, nth_read(reads, p)),
                ),
                ..self.pager
            },
            ..self
        }
    }

    /// The state after `row` was appended.
    pub open spec fn inserted(self, row: RowView, read: Seq<u8>) -> TableView {
        TableView {
            num_rows: self.num_rows + 1,
            pager: self.pager.save(self.num_rows as int, row_encoding(row), read),
        }
    }

    /// The state after an `insert` of `row`: a full table stays as it is.
    pub open spec fn insert(self, row: RowView, read: Seq<u8>) -> TableView {
        if self.num_rows < TABLE_MAX_ROWS {
            self.inserted(row, read)
        } else {
            self
        }
    }

    /// The state after a run of inserts, `rows[k]` with `reads[k]`.
    pub open spec fn insert_all(self, rows: Seq<RowView>, reads: Seq<Seq<u8>>) -> TableView
        decreases rows.len(),
    {
        if rows.len() == 0 {
            self
        } else {
            self.insert_all(rows.drop_last(), reads).insert(
                rows.last(),
                nth_read(reads, rows.len() - 1),
            )
        }
    }

    /// The state after the cache was dropped.
    pub open spec fn freed(self) -> TableView {
        TableView { pager: PagerView { pages: Map::empty(), ..self.pager }, ..self }
    }

    /// The table of a file of `file_length` bytes, as `db_open` makes it.
    pub open spec fn opened(file_length: nat) -> TableView {
        TableView {
            num_rows: file_length / (ROW_SIZE as nat),
            pager: PagerView { file_length, pages: Map::empty() },
        }
    }

    /// Whether `statement` looks at page `page`: an `insert` at the page
    /// of the row it appends, a `select` at every page that holds a row.
    pub open spec fn touches(self, statement: StatementView, page: int) -> bool {
        match statement {
            StatementView::Insert(_) => self.num_rows < TABLE_MAX_ROWS && page == page_of_row(
                self.num_rows as int,
            ),
            StatementView::Select => 0 <= page < pages_for_rows(self.num_rows as int),
        }
    }

    /// What `statement` needs read from the file for page `page`.
    pub open spec fn request(self, statement: StatementView, page: int) -> Option<int> {
        if self.touches(statement, page) {
            self.pager.request(page)
        } else {
            None
        }
    }

    /// The state after `statement` was carried out.
    pub open spec fn executed(self, statement: StatementView, reads: Seq<Seq<u8>>) -> TableView {
        match statement {
            StatementView::Insert(row) => self.insert(
                row,
                nth_read(reads, page_of_row(self.num_rows as int)),
            ),
            StatementView::Select => self.scanned(reads),
        }
    }

    /// Whether `result` is what `statement` comes to in this state: the
    /// write of the appended row, or the rows in index order.
    pub open spec fn yields(
        self,
        statement: StatementView,
        reads: Seq<Seq<u8>>,
        result: ExecuteResult,
    ) -> bool {
        match statement {
            StatementView::Insert(row) => if self.num_rows < TABLE_MAX_ROWS {
                result matches ExecuteResult::Inserted(write) && write.offset == offset_in_file(
                    self.num_rows as int,
                ) && write.bytes@ == row_encoding(row)
            } else {
                result is TableFull
            },
            StatementView::Select => result matches ExecuteResult::Selected(rows) && rows@.len()
                == self.num_rows && forall|i: int|
                0 <= i < self.num_rows ==> (#[trigger] rows@[i])@ == self.row(i, reads),
        }
    }

    /// What `command` needs read from the file for page `page`.
    pub open spec fn command_request(self, command: CommandView, page: int) -> Option<int> {
        match command {
            CommandView::Statement(statement) => self.request(statement, page),
            _ => None,
        }
    }

    /// The state after `command` was carried out.
    pub open spec fn ran(self, command: CommandView, reads: Seq<Seq<u8>>) -> TableView {
        match command {
            CommandView::Exit => self.freed(),
            CommandView::Statement(statement) => self.executed(statement, reads),
            _ => self,
        }
    }
}

/// Inserts are counted one by one up to the capacity and not beyond: after
/// any run of inserts the table holds as many rows more as there were
/// inserts, or `TABLE_MAX_ROWS` if that is fewer. So an empty table takes
/// exactly `TABLE_MAX_ROWS` rows, and refuses the next.
pub proof fn lemma_capacity(table: TableView, rows: Seq<RowView>, reads: Seq<Seq<u8>>)
    requires
        table.num_rows <= TABLE_MAX_ROWS,
    ensures
        table.insert_all(rows, reads).num_rows == if table.num_rows + rows.len()
            <= TABLE_MAX_ROWS {
            table.num_rows + rows.len()
        } else {
            TABLE_MAX_ROWS as nat
        },
    decreases rows.len(),
{
    if rows.len() > 0 {
        lemma_capacity(table, rows.drop_last(), reads);
    }
}

/// A number of rows that a table can hold.
struct RowCount {
    count: usize,
}

impl RowCount {
    #[verifier::type_invariant]
    spec fn inv(self) -> bool {
        self.count <= TABLE_MAX_ROWS
    }

    fn new(count: usize) -> (r: Option<Self>)
        ensures
            count > TABLE_MAX_ROWS ==> r is None,
            count <= TABLE_MAX_ROWS ==> r is Some && r->Some_0.count == count,
    {
        if count > TABLE_MAX_ROWS {
            None
        } else {
            Some(Self { count })
        }
    }

    fn get(&self) -> (count: usize)
        ensures
            count == self.count,
            count <= TABLE_MAX_ROWS,
    {
        proof {
            use_type_invariant(self);
        }
        self.count
    }

    fn increment(&mut self)
        requires
            old(self).count < TABLE_MAX_ROWS,
        ensures
            final(self).count == old(self).count + 1,
    {
        self.count += 1;
    }
}

/// One table, backed by one file.
pub struct Table {
    num_rows: RowCount,
    pager: Pager,
}

impl View for Table {
    type V = TableView;

    closed spec fn view(&self) -> TableView {
        TableView { num_rows: self.num_rows.count as nat, pager: self.pager@ }
    }
}

impl Table {
    /// Opens the table of a file of `file_length` bytes. The file holds
    /// `file_length / ROW_SIZE` rows; bytes after the last whole row are
    /// ignored. A file with more rows than a table can hold is refused.
    pub fn db_open(file_length: usize) -> (r: Result<Table, Error>)
        ensures
            file_length / ROW_SIZE > TABLE_MAX_ROWS ==> r == Err::<Table, Error>(
                Error::PageOutOfBounds,
            ),
            file_length / ROW_SIZE <= TABLE_MAX_ROWS ==> r is Ok && r->Ok_0@.wf() && r->Ok_0@
                == TableView::opened(file_length as nat),
    {
        match RowCount::new(file_length / ROW_SIZE) {
            Some(num_rows) => Ok(Self { num_rows, pager: Pager::open(file_length) }),
            None => Err(Error::PageOutOfBounds),
        }
    }

    /// The number of rows in the table.
    pub fn num_rows(&self) -> (num_rows: usize)
        ensures
            num_rows == self@.num_rows,
            num_rows <= TABLE_MAX_ROWS,
    {
        self.num_rows.get()
    }

    /// The number of pages that hold rows.
    pub fn pages_in_use(&self) -> (pages: usize)
        ensures
            pages == pages_for_rows(self@.num_rows as int),
            pages <= TABLE_MAX_PAGES,
    {
        let num_rows: usize = self.num_rows.get();
        if num_rows == 0 {
            0
        } else {
            Pager::page_num(num_rows - 1) + 1
        }
    }

    /// What has to be read from the file before page `page_num` is used:
    /// see `Pager::page_request`.
    pub fn page_request(&self, page_num: usize) -> (r: Result<Option<u64>, Error>)
        ensures
            page_num >= TABLE_MAX_PAGES ==> r == Err::<Option<u64>, Error>(Error::PageOutOfBounds),
            page_num < TABLE_MAX_PAGES ==> r is Ok && match self@.pager.request(page_num as int) {
                Some(offset) => r->Ok_0 == Some(offset as u64),
                None => r->Ok_0 is None,
            },
    {
        self.pager.page_request(page_num)
    }

    /// What has to be read from the file before the next `insert`: the
    /// request for the page that the new row goes to.
    pub fn insert_request(&self) -> (r: Result<Option<u64>, InsertError>)
        ensures
            self@.num_rows >= TABLE_MAX_ROWS ==> r == Err::<Option<u64>, InsertError>(
                InsertError::TableFull,
            ),
            self@.num_rows < TABLE_MAX_ROWS ==> r is Ok && match self@.pager.request(
                page_of_row(self@.num_rows as int),
            ) {
                Some(offset) => r->Ok_0 == Some(offset as u64),
                None => r->Ok_0 is None,
            },
    {
        let num_rows: usize = self.num_rows.get();
        if num_rows >= TABLE_MAX_ROWS {
            return Err(InsertError::TableFull);
        }
        Ok(self.pager.request_at(Pager::page_num(num_rows)))
    }

    /// Appends `row`, and returns the write that puts it into the file.
    /// `read` is what the file gave for `insert_request`. A full table
    /// takes no row and stays as it is.
    pub fn insert(&mut self, row: &Row, read: &[u8]) -> (r: Result<RowWrite, InsertError>)
        ensures
            final(self)@.wf(),
            old(self)@.num_rows >= TABLE_MAX_ROWS ==> r == Err::<RowWrite, InsertError>(
                InsertError::TableFull,
            ),
            old(self)@.num_rows < TABLE_MAX_ROWS ==> r is Ok && r->Ok_0.offset == offset_in_file(
                old(self)@.num_rows as int,
            ) && r->Ok_0.bytes@ == row_encoding(row@),
            final(self)@ == old(self)@.insert(row@, read@),
    {
        let num_rows: usize = self.num_rows.get();
        if num_rows >= TABLE_MAX_ROWS {
            proof {
                use_type_invariant(&self.pager);
                self.pager.lemma_view_wf();
            }
            return Err(InsertError::TableFull);
        }
        let bytes: RowLine = row.encode();
        let offset: u64 = self.pager.store_row(num_rows, bytes, read);
        self.num_rows.increment();
        Ok(RowWrite { offset, bytes })
    }

    /// Reads every row, in the order of insertion. `reads` holds what the
    /// file gave for the `page_request` of each page in use, at the index of
    /// the page's number; a page without an entry counts as nothing read.
    /// A row that could not be decoded would end the scan with its error;
    /// there is no such row.
    pub fn select_all(&mut self, reads: &Vec<Vec<u8>>) -> (r: Result<Vec<Row>, DecodeError>)
        ensures
            final(self)@.wf(),
            r is Ok,
            r->Ok_0@.len() == old(self)@.num_rows,
            forall|i: int|
                0 <= i < old(self)@.num_rows ==> (#[trigger] r->Ok_0@[i])@ == old(self)@.row(
                    i,
                    reads.deep_view(),
                ),
            final(self)@ == old(self)@.scanned(reads.deep_view()),
    {
        proof {
            use_type_invariant(&self.pager);
            self.pager.lemma_view_wf();
        }
        let num_rows: usize = self.num_rows.get();
        let mut rows: Vec<Row> = Vec::new();
        let mut cursor = Cursor::table_start(num_rows);
        while !cursor.is_end()
            invariant
                num_rows == self.num_rows.count,
                num_rows <= TABLE_MAX_ROWS,
                self.num_rows == old(self).num_rows,
                cursor.position() <= num_rows,
                cursor.at_end() <==> cursor.position() >= num_rows,
                rows@.len() == cursor.position(),
                self.pager@.wf(),
                old(self).pager@.wf(),
                self.pager@.file_length == old(self).pager@.file_length,
                self.pager@.pages == Map::new(
                    |p: int|
                        old(self).pager@.pages.contains_key(p) || 0 <= p < pages_for_rows(
                            cursor.position() as int,
                        ),
                    |p: int| old(self).pager@.page(p, nth_read(reads.deep_view(), p)),
                ),
                forall|i: int|
                    0 <= i < rows@.len() ==> (#[trigger] rows@[i])@ == old(self)@.row(
                        i,
                        reads.deep_view(),
                    ),
            decreases num_rows - cursor.position(),
        {
            let row_num: usize = cursor.row_num();
            let page_num: usize = Pager::page_num(row_num);
            let line: RowLine = if page_num < reads.len() {
                assert(reads.deep_view()[page_num as int] =~= reads@[page_num as int]@);
                self.pager.row_at(row_num, reads[page_num].as_slice())
            } else {
                let nothing: [u8; 0] = [];
                assert(nothing@ =~= Seq::<u8>::empty());
                self.pager.row_at(row_num, nothing.as_slice())
            };
            let row: Row = Row::from(line.as_slice())?;
            rows.push(row);
            cursor.advance(num_rows);
        }
        Ok(rows)
    }

    /// What has to be read from the file before `statement` is carried out:
    /// for each page number, the offset of a read of `PAGE_SIZE` bytes
    /// (fewer if the file ends), or `None` where nothing is needed.
    pub fn requests(&self, statement: &Statement) -> (requests: Vec<Option<u64>>)
        ensures
            requests@.len() == TABLE_MAX_PAGES,
            forall|p: int|
                0 <= p < TABLE_MAX_PAGES ==> match self@.request(statement@, p) {
                    Some(offset) => #[trigger] requests@[p] == Some(offset as u64),
                    None => requests@[p] is None,
                },
    {
        let num_rows: usize = self.num_rows.get();
        let first: usize = match statement {
            Statement::Insert(_) => if num_rows < TABLE_MAX_ROWS {
                Pager::page_num(num_rows)
            } else {
                TABLE_MAX_PAGES
            },
            Statement::Select => 0,
        };
        let end: usize = match statement {
            Statement::Insert(_) => if num_rows < TABLE_MAX_ROWS {
                first + 1
            } else {
                TABLE_MAX_PAGES
            },
            Statement::Select => self.pages_in_use(),
        };
        let mut requests: Vec<Option<u64>> = Vec::new();
        let mut page_num: usize = 0;
        while page_num < TABLE_MAX_PAGES
            invariant
                page_num <= TABLE_MAX_PAGES,
                requests@.len() == page_num,
                forall|p: int|
                    0 <= p < TABLE_MAX_PAGES ==> (first <= p < end <==> #[trigger] self@.touches(
                        statement@,
                        p,
                    )),
                forall|p: int|
                    0 <= p < page_num ==> match self@.request(statement@, p) {
                        Some(offset) => #[trigger] requests@[p] == Some(offset as u64),
                        None => requests@[p] is None,
                    },
            decreases TABLE_MAX_PAGES - page_num,
        {
            let request: Option<u64> = if first <= page_num && page_num < end {
                self.pager.request_at(page_num)
            } else {
                None
            };
            requests.push(request);
            page_num += 1;
        }
        requests
    }

    /// Carries out `statement`. `reads` holds what the file gave for
    /// `requests(statement)`, at the index of each page's number; a page
    /// without an entry counts as nothing read.
    pub fn execute_statement(&mut self, statement: &Statement, reads: &Vec<Vec<u8>>) -> (r:
        ExecuteResult)
        ensures
            final(self)@.wf(),
            final(self)@ == old(self)@.executed(statement@, reads.deep_view()),
            old(self)@.yields(statement@, reads.deep_view(), r),
    {
        match statement {
            Statement::Insert(row) => {
                let page_num: usize = Pager::page_num(self.num_rows.get());
                let inserted = if page_num < reads.len() {
                    assert(reads.deep_view()[page_num as int] =~= reads@[page_num as int]@);
                    self.insert(row, reads[page_num].as_slice())
                } else {
                    let nothing: [u8; 0] = [];
                    assert(nothing@ =~= Seq::<u8>::empty());
                    self.insert(row, nothing.as_slice())
                };
                match inserted {
                    Ok(write) => ExecuteResult::Inserted(write),
                    Err(InsertError::TableFull) => ExecuteResult::TableFull,
                }
            },
            Statement::Select => match self.select_all(reads) {
                Ok(rows) => ExecuteResult::Selected(rows),
                Err(e) => ExecuteResult::Unreadable(e),
            },
        }
    }

    /// What has to be read from the file before the line `src` is carried
    /// out by `run`: the requests of its statement, if it is one.
    pub fn run_requests(&self, src: &str) -> (requests: Vec<Option<u64>>)
        ensures
            requests@.len() == TABLE_MAX_PAGES,
            forall|p: int|
                0 <= p < TABLE_MAX_PAGES ==> match self@.command_request(
                    command_of(src.spec_bytes(), scanf_inputs("insert {} {} {}"@, src@)),
                    p,
                ) {
                    Some(offset) => #[trigger] requests@[p] == Some(offset as u64),
                    None => requests@[p] is None,
                },
    {
        match prepare_command(src) {
            Command::Statement(statement) => self.requests(&statement),
            _ => {
                let mut requests: Vec<Option<u64>> = Vec::new();
                while requests.len() < TABLE_MAX_PAGES
                    invariant
                        requests@.len() <= TABLE_MAX_PAGES,
                        forall|p: int| 0 <= p < requests@.len() ==> requests@[p] is None,
                    decreases TABLE_MAX_PAGES - requests@.len(),
                {
                    requests.push(None);
                }
                requests
            },
        }
    }

    /// Carries out the line `src`: `.exit` drops the cache, a statement is
    /// carried out on the table, and any other line changes nothing.
    /// `reads` holds what the file gave for `run_requests(src)`, at the
    /// index of each page's number.
    pub fn run(&mut self, src: &str, reads: &Vec<Vec<u8>>) -> (r: RunResult)
        ensures
            final(self)@.wf(),
            final(self)@ == old(self)@.ran(
                command_of(src.spec_bytes(), scanf_inputs("insert {} {} {}"@, src@)),
                reads.deep_view(),
            ),
            match command_of(src.spec_bytes(), scanf_inputs("insert {} {} {}"@, src@)) {
                CommandView::Exit => r is Exit,
                CommandView::Unrecognized => r is Unrecognized,
                CommandView::Invalid(e) => r == RunResult::Invalid(e),
                CommandView::Statement(statement) => r matches RunResult::Executed(result)
                    && old(self)@.yields(statement, reads.deep_view(), result),
            },
    {
        proof {
            use_type_invariant(&self.num_rows);
            use_type_invariant(&self.pager);
            self.pager.lemma_view_wf();
        }
        match prepare_command(src) {
            Command::Exit => {
                self.free();
                RunResult::Exit
            },
            Command::Unrecognized => RunResult::Unrecognized,
            Command::Invalid(e) => RunResult::Invalid(e),
            Command::Statement(statement) => RunResult::Executed(
                self.execute_statement(&statement, reads),
            ),
        }
    }

    /// Drops the cached pages. The rows stay in the file.
    pub fn free(&mut self)
        ensures
            final(self)@.wf(),
            final(self)@ == old(self)@.freed(),
    {
        proof {
            use_type_invariant(&self.num_rows);
        }
        self.pager.free()
    }
}

} // verus!
