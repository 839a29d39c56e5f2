//! A minimal single-table row store: fixed-width rows, packed into
//! fixed-size pages of one flat file.
//!
//! The library decides and computes; it never touches the file. Every
//! operation that needs the file says which bytes it wants read or written,
//! and takes what was read as an argument. A caller owns the file handle and
//! carries those requests out:
//!
//! 1. ask what to read (`Table::run_requests`, `Table::requests`,
//!    `Table::insert_request`, `Pager::page_request`);
//! 2. read it, and hand it to the operation (`Table::run`,
//!    `Table::execute_statement`, `Table::insert`, `Table::select_all`, and
//!    the pager's `get_page`, `get_row`, `save_row`);
//! 3. write the row that an insert hands back, at the offset it names.
//!
//! What the caller can rely on if it does so is stated in [`file`] and
//! [`storage`]: the cache agrees with the file, rows come back as they were
//! written and in the order of insertion, and they outlast the table that
//! wrote them.
//!
//! Rows are stored as their id in four bytes, least significant first,
//! followed by the username and the email in full.

pub mod bytes;
pub mod cursor;
pub mod file;
pub mod pager;
pub mod statement;
pub mod storage;
pub mod table;
pub mod text;

use crate::bytes::{
    deserialize_u32, lemma_u32_le_bytes_exact, lemma_u32_le_round_trip, pad_bytes, read_bytes,
    serialize_u32, u32_from_le_bytes, u32_le_bytes, write_bytes, zero_padded,
};
use vstd::prelude::*;
use vstd::slice::slice_subrange;
use vstd::string::StringSliceAdditionalSpecFns;

verus! {

/// The exit status of a program that ended in good order.
pub const EXIT_SUCCESS: i32 = 0;

/// The exit status of a program that gave up.
pub const EXIT_FAILURE: i32 = -1;

/// Bytes in a page, the unit in which the file is cached.
pub const PAGE_SIZE: usize = 4096;

/// Pages a table can grow to.
pub const TABLE_MAX_PAGES: usize = 100;

/// Bytes in the `username` field.
pub const USERNAME_SIZE: usize = 32;

/// Bytes in the `email` field.
pub const EMAIL_SIZE: usize = 255;

/// Bytes in an encoded row: 4 for the id, then the two text fields.
pub const ROW_SIZE: usize = 291;

/// Whole rows in a page; the bytes left over at a page's tail are never used.
pub const ROWS_PER_PAGE: usize = 14;

/// Rows a table can hold.
pub const TABLE_MAX_ROWS: usize = 1400;

/// The sizes fit together: a row is its three fields, a page holds as many
/// whole rows as fit, and a table holds as many rows as its pages do.
pub proof fn lemma_sizes()
    ensures
        ROW_SIZE == 4 + USERNAME_SIZE + EMAIL_SIZE,
        ROWS_PER_PAGE == PAGE_SIZE / ROW_SIZE,
        TABLE_MAX_ROWS == ROWS_PER_PAGE * TABLE_MAX_PAGES,
{
}

/// A row in its stored form.
pub type RowLine = [u8; ROW_SIZE];

/// A page of the file in memory.
pub type Page = [u8; PAGE_SIZE];

pub type Username = [u8; USERNAME_SIZE];

pub type Email = [u8; EMAIL_SIZE];

/// A record of the table. Text fields are zero-padded to their capacity.
#[derive(Debug, Clone, Copy, PartialEq, Eq)]
pub struct Row {
    pub id: u32,
    pub username: Username,
    pub email: Email,
}

/// What a row holds, as contracts speak of it.
pub struct RowView {
    pub id: u32,
    pub username: Seq<u8>,
    pub email: Seq<u8>,
}

impl RowView {
    /// The text fields fill their capacity exactly.
    pub open spec fn wf(self) -> bool {
        &&& self.username.len() == USERNAME_SIZE
        &&& self.email.len() == EMAIL_SIZE
    }
}

impl View for Row {
    type V = RowView;

    open spec fn view(&self) -> RowView {
        RowView { id: self.id, username: self.username@, email: self.email@ }
    }
}

/// Why bytes could not be read as a row.
#[derive(Debug, Clone, Copy, PartialEq, Eq)]
pub enum DecodeError {
    /// The buffer does not hold exactly `ROW_SIZE` bytes.
    LengthMismatch,
}

/// The stored form of a row: the id in little-endian order, then the
/// username, then the email, with nothing in between.
pub open spec fn row_encoding(row: RowView) -> Seq<u8> {
    u32_le_bytes(row.id) + row.username + row.email
}

/// The row that `ROW_SIZE` bytes stand for.
pub open spec fn row_decoding(bytes: Seq<u8>) -> RowView
    recommends
        bytes.len() == ROW_SIZE,
{
    RowView {
        id: u32_from_le_bytes(bytes.subrange(0, 4)),
        username: bytes.subrange(4, 4 + USERNAME_SIZE),
        email: bytes.subrange(4 + USERNAME_SIZE, ROW_SIZE as int),
    }
}

/// Decoding an encoded row gives the row back, field for field.
pub proof fn lemma_row_round_trip(row: RowView)
    requires
        row.wf(),
    ensures
        row_encoding(row).len() == ROW_SIZE,
        row_decoding(row_encoding(row)) == row,
{
    lemma_u32_le_round_trip(row.id);
    let bytes = row_encoding(row);
    assert(bytes.subrange(4, 4 + USERNAME_SIZE) =~= row.username);
    assert(bytes.subrange(4 + USERNAME_SIZE, ROW_SIZE as int) =~= row.email);
}

/// Every `ROW_SIZE` bytes are the encoding of the row they decode to: the
/// codec neither rejects nor alters any byte pattern of the right length.
pub proof fn lemma_row_bytes_exact(bytes: Seq<u8>)
    requires
        bytes.len() == ROW_SIZE,
    ensures
        row_decoding(bytes).wf(),
        row_encoding(row_decoding(bytes)) == bytes,
{
    lemma_u32_le_bytes_exact(bytes.subrange(0, 4));
}

/// Rows that hold the same values are the same row.
pub proof fn lemma_row_view_injective(a: Row, b: Row)
    requires
        a@ == b@,
    ensures
        a == b,
{
    assert(a.username =~= b.username);
    assert(a.email =~= b.email);
}

/// A row that decodes from another row's encoding is that row.
pub proof fn lemma_decode_encode(row: Row, decoded: Row)
    requires
        decoded@ == row_decoding(row_encoding(row@)),
    ensures
        decoded == row,
{
    lemma_row_round_trip(row@);
    lemma_row_view_injective(decoded, row);
}

impl Row {
    /// The row in its stored form.
    pub fn encode(&self) -> (out: RowLine)
        ensures
            out@ == row_encoding(self@),
            row_decoding(out@) == self@,
    {
        let mut out: RowLine = [0u8; ROW_SIZE];
        let id: [u8; 4] = serialize_u32(self.id);
        write_bytes(&mut out, 0, id.as_slice());
        write_bytes(&mut out, 4, self.username.as_slice());
        write_bytes(&mut out, 4 + USERNAME_SIZE, self.email.as_slice());
        proof {
            lemma_u32_le_round_trip(self.id);
            assert(out@ =~= row_encoding(self@));
            lemma_row_round_trip(self@);
        }
        out
    }

    /// Reads a row from its stored form. Any `ROW_SIZE` bytes are a row;
    /// a buffer of another length is none.
    pub fn from(buf: &[u8]) -> (r: Result<Row, DecodeError>)
        ensures
            buf@.len() == ROW_SIZE ==> r is Ok && r->Ok_0@ == row_decoding(buf@),
            buf@.len() != ROW_SIZE ==> r == Err::<Row, DecodeError>(DecodeError::LengthMismatch),
    {
        if buf.len() != ROW_SIZE {
            return Err(DecodeError::LengthMismatch);
        }
        // On four bytes the integer decoder has no failing input.
        let id: u32 = match deserialize_u32(slice_subrange(buf, 0, 4)) {
            Ok(id) => id,
            Err(_) => {
                return Err(DecodeError::LengthMismatch);
            },
        };
        let username: Username = read_bytes::<USERNAME_SIZE>(buf, 4);
        let email: Email = read_bytes::<EMAIL_SIZE>(buf, 4 + USERNAME_SIZE);
        Ok(Row { id, username, email })
    }
}

/// The bytes of `s` in an array of `N`: cut off after `N` bytes, zero-filled
/// where `s` is shorter.
pub fn to_u8_array<const N: usize>(s: &str) -> (a: [u8; N])
    ensures
        a@ == zero_padded(s.spec_bytes(), N as nat),
{
    pad_bytes::<N>(s.as_bytes())
}

} // verus!
