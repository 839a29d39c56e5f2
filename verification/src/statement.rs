//! Lines of input and what they ask for. A line is a command to the
//! program if it begins with a dot, and else a statement for the table: an
//! `insert` with an id, a username and an email, or a `select`.

use crate::bytes::zero_padded;
use crate::{to_u8_array, Row, RowView, EMAIL_SIZE, USERNAME_SIZE};
use scanf::format::InputFormatParser;
use vstd::prelude::*;
use vstd::string::StringSliceAdditionalSpecFns;
use vstd::utf8::encode_utf8;

verus! {

/// A request to the table.
#[derive(Debug, Clone, Copy, PartialEq, Eq)]
pub enum Statement {
    /// Append this row.
    Insert(Row),
    /// Read all rows.
    Select,
}

/// What a statement asks for, as contracts speak of it.
pub enum StatementView {
    Insert(RowView),
    Select,
}

impl View for Statement {
    type V = StatementView;

    open spec fn view(&self) -> StatementView {
        match self {
            Statement::Insert(row) => StatementView::Insert(row@),
            Statement::Select => StatementView::Select,
        }
    }
}

/// What a line of input asks for.
#[derive(Debug, Clone, Copy, PartialEq, Eq)]
pub enum Command {
    /// `.exit`: close the table and leave.
    Exit,
    /// Another line that begins with a dot.
    Unrecognized,
    /// A statement for the table.
    Statement(Statement),
    /// A line that was meant as a statement and is none.
    Invalid(PrepareError),
}

/// What a command asks for, as contracts speak of it.
pub enum CommandView {
    Exit,
    Unrecognized,
    Statement(StatementView),
    Invalid(PrepareError),
}

impl View for Command {
    type V = CommandView;

    open spec fn view(&self) -> CommandView {
        match self {
            Command::Exit => CommandView::Exit,
            Command::Unrecognized => CommandView::Unrecognized,
            Command::Statement(statement) => CommandView::Statement(statement@),
            Command::Invalid(e) => CommandView::Invalid(*e),
        }
    }
}

/// Why a line is no statement.
#[derive(Debug, Clone, Copy, PartialEq, Eq)]
pub enum PrepareError {
    /// The line starts with neither `insert` nor `select`.
    UnrecognizedStatement,
    /// An `insert` without its three fields, or with an id that is no
    /// 32-bit integer.
    SyntaxError,
    /// The username or the email does not fit its field.
    ParseStringTooLong,
    /// The id is below zero.
    ParseNegativeId,
}

/// The fields that `scanf`'s format parser finds in `input` under
/// `format`, one per placeholder; `None` where the input does not fit the
/// format, or the format is none.
pub uninterp spec fn scanf_inputs(format: Seq<char>, input: Seq<char>) -> Option<Seq<Seq<char>>>;

/// The 32-bit integer that `str::parse` reads from `text`, if it reads one.
pub uninterp spec fn text_to_i32(text: Seq<char>) -> Option<i32>;

/// Calls `scanf`'s `InputFormatParser::new` on `format` and then
/// `InputFormatParser::inputs` on `input`, the two steps of its `sscanf`,
/// and hands out the text of each field. Both steps work on their arguments
/// alone; an error of either gives `None`.
#[verifier::external_body]
fn scan_inputs(format: &str, input: &str) -> (r: Option<Vec<String>>)
    ensures
        r.deep_view() == scanf_inputs(format@, input@),
{
    let parser = match InputFormatParser::new(format) {
        Ok(parser) => parser,
        Err(_) => return None,
    };
    match parser.inputs(input) {
        Ok(inputs) => Some(inputs.iter().map(|input| input.as_str().to_string()).collect()),
        Err(_) => None,
    }
}

/// Calls `str::parse` for an `i32`; an error gives `None`.
#[verifier::external_body]
fn parse_i32(text: &str) -> (r: Option<i32>)
    ensures
        r == text_to_i32(text@),
{
    text.parse().ok()
}

/// `bytes` begins with `word`.
pub open spec fn has_prefix(bytes: Seq<u8>, word: Seq<u8>) -> bool {
    bytes.len() >= word.len() && bytes.subrange(0, word.len() as int) == word
}

fn same_bytes(bytes: &[u8], word: &[u8]) -> (r: bool)
    ensures
        r == (bytes@ == word@),
{
    if bytes.len() != word.len() {
        return false;
    }
    let same: bool = starts_with(bytes, word);
    assert(bytes@.subrange(0, word@.len() as int) =~= bytes@);
    same
}

fn starts_with(bytes: &[u8], word: &[u8]) -> (r: bool)
    ensures
        r == has_prefix(bytes@, word@),
{
    if bytes.len() < word.len() {
        return false;
    }
    let mut i: usize = 0;
    while i < word.len()
        invariant
            i <= word@.len() <= bytes@.len(),
            forall|k: int| 0 <= k < i ==> bytes@[k] == word@[k],
        decreases word@.len() - i,
    {
        if bytes[i] != word[i] {
            return false;
        }
        i += 1;
    }
    assert(bytes@.subrange(0, word@.len() as int) =~= word@);
    true
}

/// The row that the three fields of an `insert` make, or why they make
/// none. Text is taken as its bytes.
pub open spec fn row_of_fields(id: i32, username: Seq<u8>, email: Seq<u8>) -> Result<
    RowView,
    PrepareError,
> {
    if id < 0 {
        Err(PrepareError::ParseNegativeId)
    } else if username.len() > USERNAME_SIZE || email.len() > EMAIL_SIZE {
        Err(PrepareError::ParseStringTooLong)
    } else {
        Ok(
            RowView {
                id: id as u32,
                username: zero_padded(username, USERNAME_SIZE as nat),
                email: zero_padded(email, EMAIL_SIZE as nat),
            },
        )
    }
}

/// The row of an `insert`, from what the format parser found in the line.
pub open spec fn row_of_inputs(inputs: Option<Seq<Seq<char>>>) -> Result<RowView, PrepareError> {
    match inputs {
        Some(fields) => if fields.len() >= 3 {
            match text_to_i32(fields[0]) {
                Some(id) => row_of_fields(id, encode_utf8(fields[1]), encode_utf8(fields[2])),
                None => Err(PrepareError::SyntaxError),
            }
        } else {
            Err(PrepareError::SyntaxError)
        },
        None => Err(PrepareError::SyntaxError),
    }
}

/// The statement of a line with the bytes `line`, when `inputs` is what
/// the format parser found in it.
pub open spec fn statement_of(line: Seq<u8>, inputs: Option<Seq<Seq<char>>>) -> Result<
    StatementView,
    PrepareError,
> {
    if has_prefix(line, "insert".spec_bytes()) {
        match row_of_inputs(inputs) {
            Ok(row) => Ok(StatementView::Insert(row)),
            Err(e) => Err(e),
        }
    } else if has_prefix(line, "select".spec_bytes()) {
        Ok(StatementView::Select)
    } else {
        Err(PrepareError::UnrecognizedStatement)
    }
}

/// The command of a line with the bytes `line`, when `inputs` is what the
/// format parser found in it: lines that begin with a dot are commands to
/// the program, all others are statements.
pub open spec fn command_of(line: Seq<u8>, inputs: Option<Seq<Seq<char>>>) -> CommandView {
    if has_prefix(line, ".".spec_bytes()) {
        if line == ".exit".spec_bytes() {
            CommandView::Exit
        } else {
            CommandView::Unrecognized
        }
    } else {
        match statement_of(line, inputs) {
            Ok(statement) => CommandView::Statement(statement),
            Err(e) => CommandView::Invalid(e),
        }
    }
}

/// A text field that fits its capacity is stored whole: padding it brings
/// back every byte of it, and only zeros after them.
pub proof fn lemma_padding_keeps_text(text: Seq<u8>, capacity: nat)
    requires
        text.len() <= capacity,
    ensures
        zero_padded(text, capacity).subrange(0, text.len() as int) == text,
        forall|i: int| text.len() <= i < capacity ==> zero_padded(text, capacity)[i] == 0,
{
}

/// Makes the row of an `insert` from its three fields. A negative id is
/// refused, and so is text that is longer than its field: nothing is ever
/// cut to fit.
pub fn row_from_fields(id: i32, username: &str, email: &str) -> (r: Result<Row, PrepareError>)
    ensures
        match r {
            Ok(row) => row_of_fields(id, username.spec_bytes(), email.spec_bytes()) == Ok::<
                RowView,
                PrepareError,
            >(row@),
            Err(e) => row_of_fields(id, username.spec_bytes(), email.spec_bytes()) == Err::<
                RowView,
                PrepareError,
            >(e),
        },
        r is Ok ==> r->Ok_0.username@.subrange(0, username.spec_bytes().len() as int)
            == username.spec_bytes() && r->Ok_0.email@.subrange(
            0,
            email.spec_bytes().len() as int,
        ) == email.spec_bytes(),
{
    if id < 0 {
        return Err(PrepareError::ParseNegativeId);
    }
    if username.as_bytes().len() > USERNAME_SIZE || email.as_bytes().len() > EMAIL_SIZE {
        return Err(PrepareError::ParseStringTooLong);
    }
    proof {
        lemma_padding_keeps_text(username.spec_bytes(), USERNAME_SIZE as nat);
        lemma_padding_keeps_text(email.spec_bytes(), EMAIL_SIZE as nat);
    }
    Ok(
        Row {
            id: id as u32,
            username: to_u8_array::<USERNAME_SIZE>(username),
            email: to_u8_array::<EMAIL_SIZE>(email),
        },
    )
}

/// Makes the row of an `insert` from what the format parser found: three
/// fields, the first of them a 32-bit integer.
pub fn row_from_inputs(inputs: &Option<Vec<String>>) -> (r: Result<Row, PrepareError>)
    ensures
        match r {
            Ok(row) => row_of_inputs(inputs.deep_view()) == Ok::<RowView, PrepareError>(row@),
            Err(e) => row_of_inputs(inputs.deep_view()) == Err::<RowView, PrepareError>(e),
        },
{
    let fields: &Vec<String> = match inputs {
        Some(fields) => fields,
        None => {
            return Err(PrepareError::SyntaxError);
        },
    };
    if fields.len() < 3 {
        return Err(PrepareError::SyntaxError);
    }
    let id: i32 = match parse_i32(fields[0].as_str()) {
        Some(id) => id,
        None => {
            return Err(PrepareError::SyntaxError);
        },
    };
    row_from_fields(id, fields[1].as_str(), fields[2].as_str())
}

/// Reads a line as a statement. A line that begins with `insert` has to fit
/// the format `insert {} {} {}`, with an id, a username and an email in the
/// three places; a line that begins with `select` is a `select`.
pub fn prepare_statement(src: &str) -> (r: Result<Statement, PrepareError>)
    ensures
        match r {
            Ok(statement) => statement_of(
                src.spec_bytes(),
                scanf_inputs("insert {} {} {}"@, src@),
            ) == Ok::<StatementView, PrepareError>(statement@),
            Err(e) => statement_of(src.spec_bytes(), scanf_inputs("insert {} {} {}"@, src@))
                == Err::<StatementView, PrepareError>(e),
        },
{
    let line: &[u8] = src.as_bytes();
    if starts_with(line, "insert".as_bytes()) {
        let inputs: Option<Vec<String>> = scan_inputs("insert {} {} {}", src);
        match row_from_inputs(&inputs) {
            Ok(row) => Ok(Statement::Insert(row)),
            Err(e) => Err(e),
        }
    } else if starts_with(line, "select".as_bytes()) {
        Ok(Statement::Select)
    } else {
        Err(PrepareError::UnrecognizedStatement)
    }
}

/// Reads a line as a command: `.exit`, or a statement.
pub fn prepare_command(src: &str) -> (command: Command)
    ensures
        command@ == command_of(src.spec_bytes(), scanf_inputs("insert {} {} {}"@, src@)),
{
    let line: &[u8] = src.as_bytes();
    if starts_with(line, ".".as_bytes()) {
        if same_bytes(line, ".exit".as_bytes()) {
            Command::Exit
        } else {
            Command::Unrecognized
        }
    } else {
        match prepare_statement(src) {
            Ok(statement) => Command::Statement(statement),
            Err(e) => Command::Invalid(e),
        }
    }
}

} // verus!
