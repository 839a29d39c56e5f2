use rs_sqlite::statement::{
    prepare_command, prepare_statement, row_from_fields, row_from_inputs, Command, PrepareError,
    Statement,
};
use rs_sqlite::{to_u8_array, Row};

fn row(id: u32, username: &str, email: &str) -> Row {
    Row { id, username: to_u8_array::<32>(username), email: to_u8_array::<255>(email) }
}

fn inputs(fields: &[&str]) -> Option<Vec<String>> {
    Some(fields.iter().map(|field| field.to_string()).collect())
}

#[test]
fn insert_line_makes_a_row() {
    assert_eq!(
        prepare_statement("insert 1 abc abc@gmail.com"),
        Ok(Statement::Insert(row(1, "abc", "abc@gmail.com")))
    );
}

#[test]
fn insert_reads_the_id_as_a_number() {
    assert_eq!(
        prepare_statement("insert 4294 a b"),
        Ok(Statement::Insert(row(4294, "a", "b")))
    );
    assert_eq!(prepare_statement("insert 0 a b"), Ok(Statement::Insert(row(0, "a", "b"))));
    assert_eq!(prepare_statement("insert +7 a b"), Ok(Statement::Insert(row(7, "a", "b"))));
    assert_eq!(
        prepare_statement("insert 2147483647 a b"),
        Ok(Statement::Insert(row(2147483647, "a", "b")))
    );
}

#[test]
fn select_line() {
    assert_eq!(prepare_statement("select"), Ok(Statement::Select));
    assert_eq!(prepare_statement("select * from users"), Ok(Statement::Select));
    assert_eq!(prepare_statement("selection"), Ok(Statement::Select));
}

#[test]
fn other_lines_are_not_recognized() {
    for line in ["", "s", "inser", "selec", "update 1", " insert 1 a b", "INSERT 1 a b", "sélect"] {
        assert_eq!(prepare_statement(line), Err(PrepareError::UnrecognizedStatement));
    }
}

#[test]
fn insert_without_its_fields_is_a_syntax_error() {
    for line in ["insert", "insert ", "insert 1", "insert 1 ", "insert 1 abc", "insert1 abc d"] {
        assert_eq!(prepare_statement(line), Err(PrepareError::SyntaxError));
    }
}

#[test]
fn insert_with_an_id_that_is_no_number_is_a_syntax_error() {
    for line in ["insert x a b", "insert 1.5 a b", "insert  a b", "insert 2147483648 a b", "insert - a b"] {
        assert_eq!(prepare_statement(line), Err(PrepareError::SyntaxError));
    }
}

#[test]
fn insert_with_a_negative_id_is_refused() {
    assert_eq!(prepare_statement("insert -1 abc abc@gmail.com"), Err(PrepareError::ParseNegativeId));
    assert_eq!(
        prepare_statement("insert -2147483648 abc abc@gmail.com"),
        Err(PrepareError::ParseNegativeId)
    );
}

#[test]
fn insert_with_text_that_does_not_fit_is_refused() {
    let long_name = "a".repeat(33);
    let long_email = "b".repeat(256);
    assert_eq!(
        prepare_statement(&format!("insert 1 {} e", long_name)),
        Err(PrepareError::ParseStringTooLong)
    );
    assert_eq!(
        prepare_statement(&format!("insert 1 u {}", long_email)),
        Err(PrepareError::ParseStringTooLong)
    );
}

#[test]
fn insert_with_text_that_just_fits_is_kept_whole() {
    let name = "a".repeat(32);
    let email = "b".repeat(255);
    let statement = prepare_statement(&format!("insert 1 {} {}", name, email)).unwrap();
    let Statement::Insert(row) = statement else { panic!("{:?}", statement) };
    assert_eq!(&row.username[..], name.as_bytes());
    assert_eq!(&row.email[..], email.as_bytes());
}

#[test]
fn negative_id_is_reported_before_long_text() {
    let long_name = "a".repeat(33);
    assert_eq!(
        prepare_statement(&format!("insert -1 {} e", long_name)),
        Err(PrepareError::ParseNegativeId)
    );
}

#[test]
fn email_takes_the_rest_of_the_line() {
    assert_eq!(
        prepare_statement("insert 1 abc d e f"),
        Ok(Statement::Insert(row(1, "abc", "d e f")))
    );
}

#[test]
fn fields_lose_the_blanks_around_them() {
    assert_eq!(prepare_statement("insert 1 abc  d "), Ok(Statement::Insert(row(1, "abc", "d"))));
}

#[test]
fn username_may_be_empty() {
    assert_eq!(prepare_statement("insert 1  d"), Ok(Statement::Insert(row(1, "", "d"))));
}

#[test]
fn row_from_fields_checks_in_order() {
    assert_eq!(row_from_fields(3, "abc", "abc@x.io"), Ok(row(3, "abc", "abc@x.io")));
    assert_eq!(row_from_fields(-3, "abc", "abc@x.io"), Err(PrepareError::ParseNegativeId));
    assert_eq!(row_from_fields(i32::MIN, "", ""), Err(PrepareError::ParseNegativeId));
    assert_eq!(row_from_fields(0, "", ""), Ok(row(0, "", "")));
    assert_eq!(row_from_fields(i32::MAX, "a", "b"), Ok(row(i32::MAX as u32, "a", "b")));
    assert_eq!(
        row_from_fields(1, &"a".repeat(33), "b"),
        Err(PrepareError::ParseStringTooLong)
    );
    assert_eq!(
        row_from_fields(1, "a", &"b".repeat(256)),
        Err(PrepareError::ParseStringTooLong)
    );
    assert!(row_from_fields(1, &"a".repeat(32), &"b".repeat(255)).is_ok());
}

#[test]
fn row_from_fields_counts_bytes() {
    // Sixteen letters of two bytes each fill the field; one more byte does not fit.
    let name = "é".repeat(16);
    assert_eq!(row_from_fields(1, &name, "e").unwrap().username[..], *name.as_bytes());
    assert_eq!(
        row_from_fields(1, &format!("{}a", name), "e"),
        Err(PrepareError::ParseStringTooLong)
    );
}

#[test]
fn row_from_inputs_needs_three_fields() {
    assert_eq!(row_from_inputs(&None), Err(PrepareError::SyntaxError));
    assert_eq!(row_from_inputs(&inputs(&[])), Err(PrepareError::SyntaxError));
    assert_eq!(row_from_inputs(&inputs(&["1", "a"])), Err(PrepareError::SyntaxError));
    assert_eq!(row_from_inputs(&inputs(&["1", "a", "b"])), Ok(row(1, "a", "b")));
    assert_eq!(row_from_inputs(&inputs(&["one", "a", "b"])), Err(PrepareError::SyntaxError));
    assert_eq!(row_from_inputs(&inputs(&["-1", "a", "b"])), Err(PrepareError::ParseNegativeId));
    assert_eq!(row_from_inputs(&inputs(&[" 1", "a", "b"])), Err(PrepareError::SyntaxError));
}

#[test]
fn exit_command() {
    assert_eq!(prepare_command(".exit"), Command::Exit);
}

#[test]
fn other_dot_lines_are_unrecognized_commands() {
    for line in [".", ".exi", ".exit ", ".exits", ".tables", ".insert 1 a b", ".select"] {
        assert_eq!(prepare_command(line), Command::Unrecognized);
    }
}

#[test]
fn lines_without_a_dot_are_statements() {
    assert_eq!(prepare_command("select"), Command::Statement(Statement::Select));
    assert_eq!(
        prepare_command("insert 1 abc abc@gmail.com"),
        Command::Statement(Statement::Insert(row(1, "abc", "abc@gmail.com")))
    );
    assert_eq!(prepare_command(""), Command::Invalid(PrepareError::UnrecognizedStatement));
    assert_eq!(prepare_command("exit"), Command::Invalid(PrepareError::UnrecognizedStatement));
    assert_eq!(prepare_command(" .exit"), Command::Invalid(PrepareError::UnrecognizedStatement));
    assert_eq!(prepare_command("insert 1 abc"), Command::Invalid(PrepareError::SyntaxError));
    assert_eq!(prepare_command("insert -1 a b"), Command::Invalid(PrepareError::ParseNegativeId));
    assert_eq!(
        prepare_command(&format!("insert 1 {} b", "a".repeat(33))),
        Command::Invalid(PrepareError::ParseStringTooLong)
    );
}
