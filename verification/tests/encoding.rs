use intelhex::HexError;
use intelhex::checksum::calc_checksum;
use intelhex::convert::convert_buffer;
use intelhex::convert::parse_lines;
use intelhex::hex::parse_hex_string;
use intelhex::record::convert_to_line;

#[test]
fn test_calc_checksum() {
    let bytes = vec![
        0x10, 0x01, 0x00, 0x00, 0x21, 0x46, 0x01, 0x36, 0x01, 0x21, 0x47, 0x01, 0x36, 0x00, 0x7E,
        0xFE, 0x09, 0xD2, 0x19, 0x01,
    ];
    assert!(calc_checksum(&bytes) == 0x40);
}

#[test]
fn test_convert_to_line() {
    let bytes = vec![
        0x21, 0x46, 0x01, 0x36, 0x01, 0x21, 0x47, 0x01, 0x36, 0x00, 0x7E, 0xFE, 0x09, 0xD2, 0x19,
        0x01,
    ];
    let address: u16 = 0x0100;
    let type_byte: u8 = 0x00;
    assert_eq!(
        convert_to_line(&bytes, address, type_byte).unwrap(),
        String::from(":10010000214601360121470136007EFE09D2190140")
    );
}

#[test]
fn test_parse_hex_string() {
    let hex_string = String::from("02AB1D00");
    let bytes: Vec<u8> = parse_hex_string(&hex_string).unwrap();
    assert_eq!(bytes.len(), 4);
    assert_eq!(bytes[0], 0x02);
    assert_eq!(bytes[1], 0xAB);
    assert_eq!(bytes[2], 0x1D);
    assert_eq!(bytes[3], 0x00);
}

#[test]
fn test_checksum_of_empty_input_is_zero() {
    assert_eq!(calc_checksum(&Vec::new()), 0x00);
}

#[test]
fn test_checksum_balances_the_sum() {
    let samples: Vec<Vec<u8>> = vec![
        vec![],
        vec![0xFF],
        vec![0x00, 0x00, 0x00],
        vec![0x10, 0x01, 0x00, 0x00, 0x21, 0x46, 0x01, 0x36],
        vec![0xDE, 0xAD, 0xBE, 0xEF, 0xC0, 0xFF, 0xEE, 0x00],
    ];
    for bytes in samples {
        let checksum = calc_checksum(&bytes);
        let mut sum: u32 = checksum as u32;
        for b in &bytes {
            sum += *b as u32;
        }
        assert_eq!(sum % 256, 0);
    }
}

#[test]
fn test_parse_odd_length_is_malformed() {
    assert_eq!(
        parse_hex_string(&String::from("02AB1")),
        Err(HexError::MalformedHexText)
    );
}

#[test]
fn test_parse_non_hex_character_is_malformed() {
    assert_eq!(
        parse_hex_string(&String::from("0G")),
        Err(HexError::MalformedHexText)
    );
    assert_eq!(
        parse_hex_string(&String::from("ZZZZ")),
        Err(HexError::MalformedHexText)
    );
}

#[test]
fn test_parse_empty_text_is_no_bytes() {
    assert_eq!(parse_hex_string(&String::from("")).unwrap(), Vec::<u8>::new());
}

#[test]
fn test_parse_accepts_lowercase_digits() {
    assert_eq!(
        parse_hex_string(&String::from("deadbeef")).unwrap(),
        vec![0xDE, 0xAD, 0xBE, 0xEF]
    );
}

#[test]
fn test_parse_recovers_formatted_data_field() {
    let bytes = vec![0x00, 0xFF, 0x10, 0x7E, 0xA5];
    let line = convert_to_line(&bytes, 0x0000, 0x00).unwrap();
    let data_field = String::from(&line[9..line.len() - 2]);
    assert_eq!(parse_hex_string(&data_field).unwrap(), bytes);
}

#[test]
fn test_oversized_record_is_rejected() {
    let bytes: Vec<u8> = vec![0xAB; 17];
    assert_eq!(
        convert_to_line(&bytes, 0x0000, 0x00),
        Err(HexError::InvalidRecordLength)
    );
}

#[test]
fn test_empty_record_line() {
    assert_eq!(
        convert_to_line(&Vec::new(), 0x0000, 0x00).unwrap(),
        String::from(":0000000000")
    );
}

#[test]
fn test_end_to_end_single_record() {
    let lines = vec![
        String::from("02AB1D00"),
        String::from("DEADBEEF"),
        String::from("DEADC0DE"),
        String::from("C0FFEE00"),
    ];
    let buffer = parse_lines(&lines).unwrap();
    assert_eq!(buffer.len(), 16);
    let out = convert_buffer(&buffer);
    assert_eq!(out.len(), 1);
    assert_eq!(
        out[0],
        String::from(":1000000002AB1D00DEADBEEFDEADC0DEC0FFEE0018")
    );
    let mut sum: u32 = 0;
    for pair in 1..(out[0].len() - 1) / 2 + 1 {
        let field = &out[0][pair * 2 - 1..pair * 2 + 1];
        sum += u32::from_str_radix(field, 16).unwrap();
    }
    assert_eq!(sum % 256, 0);
}

#[test]
fn test_seventeen_byte_buffer_gives_two_records() {
    let buffer: Vec<u8> = (0x00..0x11).collect();
    let out = convert_buffer(&buffer);
    assert_eq!(out.len(), 2);
    assert_eq!(
        out[0],
        String::from(":10000000000102030405060708090A0B0C0D0E0F78")
    );
    assert_eq!(out[1], String::from(":0100100010DF"));
}

#[test]
fn test_malformed_line_fails_the_conversion() {
    let lines = vec![String::from("02AB"), String::from("1D0")];
    assert_eq!(parse_lines(&lines), Err(HexError::MalformedHexText));
}

#[test]
fn test_address_is_split_big_endian() {
    let bytes = vec![0x42];
    let line = convert_to_line(&bytes, 0xABCD, 0x00).unwrap();
    assert_eq!(&line[3..7], "ABCD");
}
