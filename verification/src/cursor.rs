//! A position in the sequence of rows, for walking a table from its start
//! to its end.

use crate::{ROWS_PER_PAGE, ROW_SIZE};
use vstd::prelude::*;

verus! {

/// Either at a row, or one past the last row.
pub struct Cursor {
    row_num: usize,
    end_of_table: bool,  // Indicates a position one past the last element
}

impl Cursor {
    #[verifier::type_invariant]
    spec fn inv(self) -> bool {
        !self.end_of_table ==> self.row_num < usize::MAX
    }

    /// The index of the row the cursor is at.
    pub closed spec fn position(self) -> nat {
        self.row_num as nat
    }

    /// Whether the cursor has left the last row behind.
    pub closed spec fn at_end(self) -> bool {
        self.end_of_table
    }

    /// A cursor at the first row of a table of `row_num` rows; an empty
    /// table has no first row, so its cursor starts at the end.
    pub fn table_start(row_num: usize) -> (cursor: Self)
        ensures
            cursor.position() == 0,
            cursor.at_end() <==> row_num == 0,
    {
        Self { row_num: 0, end_of_table: row_num == 0 }
    }

    /// A cursor past the last row of a table of `row_num` rows.
    pub fn table_end(row_num: usize) -> (cursor: Self)
        ensures
            cursor.position() == row_num,
            cursor.at_end(),
    {
        Self { row_num, end_of_table: true }
    }

    /// Where the cursor's row starts within its page, in bytes.
    pub fn offset(&self) -> (offset: usize)
        ensures
            offset == (self.position() % (ROWS_PER_PAGE as nat)) * ROW_SIZE,
    {
        let row_num: usize = self.row_num;
        let row_offset: usize = row_num % ROWS_PER_PAGE;
        row_offset * ROW_SIZE
    }

    /// Steps to the next row of a table of `num_rows` rows, and to the end
    /// when there is none. A cursor at the end cannot be advanced.
    pub fn advance(&mut self, num_rows: usize)
        requires
            !old(self).at_end(),
        ensures
            final(self).position() == old(self).position() + 1,
            final(self).at_end() <==> old(self).position() + 1 >= num_rows,
    {
        proof {
            use_type_invariant(&*self);
        }
        let next: usize = self.row_num + 1;
        if next >= num_rows {
            self.end_of_table = true;
        }
        self.row_num = next;
    }

    /// Whether the cursor is past the last row.
    pub fn is_end(&self) -> (end: bool)
        ensures
            end == self.at_end(),
    {
        self.end_of_table
    }

    /// The index of the cursor's row.
    pub fn row_num(&self) -> (row_num: usize)
        ensures
            row_num == self.position(),
    {
        self.row_num
    }
}

} // verus!
