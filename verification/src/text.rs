//! Rows and outcomes as text, for showing them to a person.

use crate::statement::PrepareError;
use crate::table::{ExecuteResult, RunResult};
use crate::{Row, RowView};
use vstd::prelude::*;
use vstd::string::StringExecFns;
use vstd::utf8::{decode_utf8, valid_utf8};

verus! {

/// The character of a decimal digit.
pub open spec fn digit(d: nat) -> char
    recommends
        d < 10,
{
    if d == 0 {
        '0'
    } else if d == 1 {
        '1'
    } else if d == 2 {
        '2'
    } else if d == 3 {
        '3'
    } else if d == 4 {
        '4'
    } else if d == 5 {
        '5'
    } else if d == 6 {
        '6'
    } else if d == 7 {
        '7'
    } else if d == 8 {
        '8'
    } else {
        '9'
    }
}

/// A number in decimal notation, without leading zeros.
pub open spec fn decimal(n: nat) -> Seq<char>
    decreases n,
{
    if n < 10 {
        seq![digit(n)]
    } else {
        decimal(n / 10).push(digit(n % 10))
    }
}

/// `bytes` with every zero byte left out.
pub open spec fn without_zeros(bytes: Seq<u8>) -> Seq<u8> {
    bytes.filter(|byte: u8| byte != 0)
}

/// A row as a line of text: `(id, username, email)`, the id in decimal and
/// the text fields without their zero bytes. A row whose text fields are
/// not UTF-8 has no such line.
pub open spec fn row_text(row: RowView) -> Option<Seq<char>> {
    let username = without_zeros(row.username);
    let email = without_zeros(row.email);
    if valid_utf8(username) && valid_utf8(email) {
        Some(
            "("@ + decimal(row.id as nat) + ", "@ + decode_utf8(username) + ", "@ + decode_utf8(
                email,
            ) + ")"@,
        )
    } else {
        None
    }
}

/// Calls `String::from_utf8`, which checks that the bytes are UTF-8 and
/// then makes them a string without changing them; an error gives `None`.
#[verifier::external_body]
fn string_from_utf8(bytes: Vec<u8>) -> (r: Option<String>)
    ensures
        r is Some <==> valid_utf8(bytes@),
        r is Some ==> r->Some_0@ == decode_utf8(bytes@),
{
    String::from_utf8(bytes).ok()
}

fn digit_text(d: u32) -> (text: &'static str)
    requires
        d < 10,
    ensures
        text@ == seq![digit(d as nat)],
{
    proof {
        reveal_strlit("0");
        reveal_strlit("1");
        reveal_strlit("2");
        reveal_strlit("3");
        reveal_strlit("4");
        reveal_strlit("5");
        reveal_strlit("6");
        reveal_strlit("7");
        reveal_strlit("8");
        reveal_strlit("9");
    }
    let text: &'static str = if d == 0 {
        "0"
    } else if d == 1 {
        "1"
    } else if d == 2 {
        "2"
    } else if d == 3 {
        "3"
    } else if d == 4 {
        "4"
    } else if d == 5 {
        "5"
    } else if d == 6 {
        "6"
    } else if d == 7 {
        "7"
    } else if d == 8 {
        "8"
    } else {
        "9"
    };
    text
}

/// `n` in decimal notation.
pub fn decimal_text(n: u32) -> (text: String)
    ensures
        text@ == decimal(n as nat),
    decreases n,
{
    if n < 10 {
        String::from_str(digit_text(n))
    } else {
        let mut text: String = decimal_text(n / 10);
        text.append(digit_text(n % 10));
        text
    }
}

/// The bytes of `field` that are not zero, in their order.
pub fn strip_zeros(field: &[u8]) -> (text: Vec<u8>)
    ensures
        text@ == without_zeros(field@),
{
    let mut text: Vec<u8> = Vec::new();
    let mut i: usize = 0;
    proof {
        reveal(Seq::filter);
    }
    while i < field.len()
        invariant
            i <= field@.len(),
            text@ == without_zeros(field@.take(i as int)),
        decreases field@.len() - i,
    {
        proof {
            reveal(Seq::filter);
            assert(field@.take(i + 1).drop_last() =~= field@.take(i as int));
        }
        if field[i] != 0 {
            text.push(field[i]);
        }
        i += 1;
    }
    assert(field@.take(i as int) =~= field@);
    text
}

impl Row {
    /// The row as a line of text: see `row_text`.
    pub fn to_text(&self) -> (text: Option<String>)
        ensures
            text.deep_view() == row_text(self@),
    {
        let username: String = string_from_utf8(strip_zeros(self.username.as_slice()))?;
        let email: String = string_from_utf8(strip_zeros(self.email.as_slice()))?;
        let mut text: String = String::from_str("(");
        text.append(decimal_text(self.id).as_str());
        text.append(", ");
        text.append(username.as_str());
        text.append(", ");
        text.append(email.as_str());
        text.append(")");
        Some(text)
    }
}

/// The lines that tell a person what came of the line `src`: a message,
/// and before it the rows of a `select`. There are none to show where a
/// row has no text, or the file held bytes that are no row.
pub open spec fn report_of(result: RunResult, src: Seq<char>) -> Option<Seq<Seq<char>>> {
    match result {
        RunResult::Exit => Some(seq!["Bye~"@]),
        RunResult::Unrecognized => Some(seq!["Unrecognized command "@ + src]),
        RunResult::Invalid(PrepareError::UnrecognizedStatement) => Some(
            seq!["Unrecognized keyword at start of '"@ + src + "'."@],
        ),
        RunResult::Invalid(PrepareError::SyntaxError) => Some(
            seq!["Syntax error. Could not parse statement."@],
        ),
        RunResult::Invalid(PrepareError::ParseStringTooLong) => Some(seq!["String is too long."@]),
        RunResult::Invalid(PrepareError::ParseNegativeId) => Some(seq!["ID must be positive."@]),
        RunResult::Executed(ExecuteResult::TableFull) => Some(seq!["Error: Table full."@]),
        RunResult::Executed(ExecuteResult::Inserted(_)) => Some(seq!["Executed."@]),
        RunResult::Executed(ExecuteResult::Selected(rows)) => if forall|i: int|
            0 <= i < rows@.len() ==> row_text(#[trigger] rows@[i]@) is Some {
            Some(
                Seq::new(rows@.len(), |i: int| row_text(rows@[i]@)->Some_0).push("Executed."@),
            )
        } else {
            None
        },
        RunResult::Executed(ExecuteResult::Unreadable(_)) => None,
    }
}

fn one_line(text: &str) -> (lines: Vec<String>)
    ensures
        lines.deep_view() == seq![text@],
{
    let mut lines: Vec<String> = Vec::new();
    lines.push(String::from_str(text));
    lines
}

/// Puts into words what came of the line `src`: see `report_of`.
pub fn report(result: &RunResult, src: &str) -> (lines: Option<Vec<String>>)
    ensures
        lines.deep_view() == report_of(*result, src@),
{
    match result {
        RunResult::Exit => Some(one_line("Bye~")),
        RunResult::Unrecognized => {
            let mut line: String = String::from_str("Unrecognized command ");
            line.append(src);
            let mut lines: Vec<String> = Vec::new();
            lines.push(line);
            Some(lines)
        },
        RunResult::Invalid(PrepareError::UnrecognizedStatement) => {
            let mut line: String = String::from_str("Unrecognized keyword at start of '");
            line.append(src);
            line.append("'.");
            let mut lines: Vec<String> = Vec::new();
            lines.push(line);
            Some(lines)
        },
        RunResult::Invalid(PrepareError::SyntaxError) => Some(
            one_line("Syntax error. Could not parse statement."),
        ),
        RunResult::Invalid(PrepareError::ParseStringTooLong) => Some(
            one_line("String is too long."),
        ),
        RunResult::Invalid(PrepareError::ParseNegativeId) => Some(one_line("ID must be positive.")),
        RunResult::Executed(ExecuteResult::TableFull) => Some(one_line("Error: Table full.")),
        RunResult::Executed(ExecuteResult::Inserted(_)) => Some(one_line("Executed.")),
        RunResult::Executed(ExecuteResult::Selected(rows)) => {
            let mut lines: Vec<String> = Vec::new();
            let mut i: usize = 0;
            while i < rows.len()
                invariant
                    *result == RunResult::Executed(ExecuteResult::Selected(*rows)),
                    i <= rows@.len(),
                    lines@.len() == i,
                    forall|k: int| 0 <= k < i ==> row_text(#[trigger] rows@[k]@) == Some(lines@[k]@),
                decreases rows@.len() - i,
            {
                match rows[i].to_text() {
                    Some(text) => lines.push(text),
                    None => {
                        return None;
                    },
                }
                i += 1;
            }
            lines.push(String::from_str("Executed."));
            Some(lines)
        },
        RunResult::Executed(ExecuteResult::Unreadable(_)) => None,
    }
}

} // verus!
