use rs_sqlite::{
    to_u8_array, DecodeError, Email, Row, RowLine, Username, EMAIL_SIZE, PAGE_SIZE, ROWS_PER_PAGE,
    ROW_SIZE, TABLE_MAX_PAGES, TABLE_MAX_ROWS, USERNAME_SIZE,
};

fn sample() -> Row {
    Row {
        id: 0x0102_0304,
        username: to_u8_array::<32>("abc"),
        email: to_u8_array::<255>("abc@x.io"),
    }
}

#[test]
fn to_u8_array_should_work() {
    assert_eq!(to_u8_array::<10>("0000000000"), [48u8; 10])
}

#[test]
fn to_u8_array_pads_with_zeros() {
    assert_eq!(to_u8_array::<6>("abc"), [97, 98, 99, 0, 0, 0]);
    assert_eq!(to_u8_array::<4>(""), [0u8; 4]);
}

#[test]
fn to_u8_array_cuts_after_capacity() {
    assert_eq!(to_u8_array::<2>("abc"), [97, 98]);
    assert_eq!(to_u8_array::<0>("abc"), [0u8; 0]);
}

#[test]
fn to_u8_array_takes_bytes_not_characters() {
    // "é" is two bytes in UTF-8.
    assert_eq!(to_u8_array::<3>("é"), [0xc3, 0xa9, 0]);
}

#[test]
fn sizes_fit_together() {
    assert_eq!(ROW_SIZE, 4 + USERNAME_SIZE + EMAIL_SIZE);
    assert_eq!(ROW_SIZE, 291);
    assert_eq!(ROWS_PER_PAGE, PAGE_SIZE / ROW_SIZE);
    assert_eq!(ROWS_PER_PAGE, 14);
    assert_eq!(TABLE_MAX_ROWS, ROWS_PER_PAGE * TABLE_MAX_PAGES);
    assert_eq!(TABLE_MAX_ROWS, 1400);
}

#[test]
fn encode_lays_fields_out_in_order() {
    let line: RowLine = sample().encode();
    assert_eq!(line.len(), ROW_SIZE);
    // The id, least significant byte first.
    assert_eq!(&line[0..4], &[4, 3, 2, 1]);
    assert_eq!(&line[4..7], b"abc");
    assert!(line[7..36].iter().all(|b| *b == 0));
    assert_eq!(&line[36..44], b"abc@x.io");
    assert!(line[44..].iter().all(|b| *b == 0));
}

#[test]
fn encode_is_little_endian() {
    let row = Row { id: 1, username: [0; 32], email: [0; 255] };
    assert_eq!(&row.encode()[0..4], &[1, 0, 0, 0]);
    let row = Row { id: u32::MAX - 1, username: [0; 32], email: [0; 255] };
    assert_eq!(&row.encode()[0..4], &[0xfe, 0xff, 0xff, 0xff]);
    let row = Row { id: 256, username: [0; 32], email: [0; 255] };
    assert_eq!(&row.encode()[0..4], &[0, 1, 0, 0]);
}

#[test]
fn decode_reads_fields_back() {
    let mut line = [0u8; ROW_SIZE];
    line[0] = 0x78;
    line[1] = 0x56;
    line[2] = 0x34;
    line[3] = 0x12;
    line[4] = b'u';
    line[35] = b'v';
    line[36] = b'e';
    line[290] = b'f';
    let row = Row::from(&line).unwrap();
    assert_eq!(row.id, 0x1234_5678);
    let mut username: Username = [0; 32];
    username[0] = b'u';
    username[31] = b'v';
    assert_eq!(row.username, username);
    let mut email: Email = [0; 255];
    email[0] = b'e';
    email[254] = b'f';
    assert_eq!(row.email, email);
}

#[test]
fn decode_of_encode_is_the_row() {
    let rows = [
        sample(),
        Row { id: 0, username: [0; 32], email: [0; 255] },
        Row { id: u32::MAX, username: [0xff; 32], email: [0xff; 255] },
        Row { id: 7, username: [b'x'; 32], email: [b'y'; 255] },
    ];
    for row in rows {
        assert_eq!(Row::from(&row.encode()), Ok(row));
    }
}

#[test]
fn encode_of_decode_is_the_bytes() {
    let mut line = [0u8; ROW_SIZE];
    for (i, byte) in line.iter_mut().enumerate() {
        *byte = (i * 7 % 256) as u8;
    }
    assert_eq!(Row::from(&line).unwrap().encode(), line);
}

#[test]
fn decode_rejects_other_lengths() {
    assert_eq!(Row::from(&[]), Err(DecodeError::LengthMismatch));
    assert_eq!(Row::from(&[0u8; 290]), Err(DecodeError::LengthMismatch));
    assert_eq!(Row::from(&[0u8; 292]), Err(DecodeError::LengthMismatch));
    assert_eq!(Row::from(&[0u8; 4096]), Err(DecodeError::LengthMismatch));
    assert!(Row::from(&[0u8; 291]).is_ok());
}

#[test]
fn full_fields_are_kept_whole() {
    let username = "u".repeat(32);
    let email = "e".repeat(255);
    let row = Row {
        id: 9,
        username: to_u8_array::<32>(&username),
        email: to_u8_array::<255>(&email),
    };
    let back = Row::from(&row.encode()).unwrap();
    assert_eq!(&back.username[..], username.as_bytes());
    assert_eq!(&back.email[..], email.as_bytes());
}
