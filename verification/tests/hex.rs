use bytescan::hex::{hex_digit, parse_buffer, try_parse_buffer, whitespace, HexDecodeError};

#[test]
fn listing_decodes_in_listed_order() {
    assert_eq!(parse_buffer("00 ff 0a 7F"), vec![0x00, 0xff, 0x0a, 0x7f]);
    assert_eq!(parse_buffer("de AD bE Ef"), vec![0xde, 0xad, 0xbe, 0xef]);
}

#[test]
fn high_digit_comes_first() {
    assert_eq!(parse_buffer("10"), vec![16]);
    assert_eq!(parse_buffer("01"), vec![1]);
    assert_eq!(parse_buffer("a5"), vec![165]);
}

#[test]
fn whitespace_around_and_between_tokens_is_skipped() {
    assert_eq!(parse_buffer(""), Vec::<u8>::new());
    assert_eq!(parse_buffer(" \n\t  "), Vec::<u8>::new());
    assert_eq!(parse_buffer("\n  01\t02\r\n\n03   "), vec![1, 2, 3]);
    assert_eq!(parse_buffer("01\u{a0}02\u{3000}03\u{2028}04\u{85}05"), vec![1, 2, 3, 4, 5]);
}

#[test]
fn every_byte_value_decodes() {
    for byte in 0..=255u8 {
        assert_eq!(parse_buffer(&format!("{byte:02x}")), vec![byte]);
        assert_eq!(parse_buffer(&format!(" {byte:02X} ")), vec![byte]);
    }
}

#[test]
fn listing_decodes_as_std_reads_its_tokens() {
    let listing = "
        01 00 00 00  00 00 00 00  00 00 00 00  00 00 00 0a
        02 00 00 00  00 00 00 00  00 00 00 00  86 18 45 FF
    ";
    let expected: Vec<u8> =
        listing.split_whitespace().map(|t| u8::from_str_radix(t, 16).unwrap()).collect();
    assert_eq!(parse_buffer(listing), expected);
    assert_eq!(try_parse_buffer(listing), Ok(expected));
}

#[test]
fn well_formed_listing_is_accepted() {
    assert_eq!(try_parse_buffer("00 ff"), Ok(vec![0, 255]));
    assert_eq!(try_parse_buffer(""), Ok(vec![]));
    assert_eq!(try_parse_buffer("7f"), Ok(vec![127]));
}

#[test]
fn token_with_an_odd_digit_count_is_malformed() {
    assert_eq!(try_parse_buffer("0"), Err(HexDecodeError { token: 0 }));
    assert_eq!(try_parse_buffer("00 f"), Err(HexDecodeError { token: 1 }));
    assert_eq!(try_parse_buffer("00 f 11"), Err(HexDecodeError { token: 1 }));
    assert_eq!(try_parse_buffer("00 11 fff"), Err(HexDecodeError { token: 2 }));
}

#[test]
fn token_with_another_character_is_malformed() {
    assert_eq!(try_parse_buffer("0g"), Err(HexDecodeError { token: 0 }));
    assert_eq!(try_parse_buffer("00 g0 11"), Err(HexDecodeError { token: 1 }));
    assert_eq!(try_parse_buffer("+f"), Err(HexDecodeError { token: 0 }));
    assert_eq!(try_parse_buffer("00 0x"), Err(HexDecodeError { token: 1 }));
    assert_eq!(try_parse_buffer("00,11"), Err(HexDecodeError { token: 0 }));
    assert_eq!(try_parse_buffer("00 \u{ff11}\u{ff11}"), Err(HexDecodeError { token: 1 }));
}

#[test]
fn token_of_more_than_two_digits_is_malformed() {
    assert_eq!(try_parse_buffer("0011"), Err(HexDecodeError { token: 0 }));
    assert_eq!(try_parse_buffer("00 00ff"), Err(HexDecodeError { token: 1 }));
}

#[test]
fn first_malformed_token_is_named() {
    assert_eq!(try_parse_buffer("zz 0 yy"), Err(HexDecodeError { token: 0 }));
    assert_eq!(try_parse_buffer("00 01 02 0 zz"), Err(HexDecodeError { token: 3 }));
}

#[test]
fn zero_width_space_is_no_separator() {
    assert_eq!(try_parse_buffer("00\u{200b}11"), Err(HexDecodeError { token: 0 }));
}

#[test]
fn separators_are_the_whitespace_of_std() {
    for code in 0..=0x10ffffu32 {
        if let Some(c) = char::from_u32(code) {
            assert_eq!(whitespace(c), c.is_whitespace(), "U+{code:04X}");
        }
    }
}

#[test]
fn separator_decides_where_tokens_end() {
    for code in 0..=0x10ffffu32 {
        if let Some(c) = char::from_u32(code) {
            let listing = format!("00{c}ff");
            if c.is_whitespace() {
                assert_eq!(try_parse_buffer(&listing), Ok(vec![0, 255]));
            } else {
                assert_eq!(try_parse_buffer(&listing), Err(HexDecodeError { token: 0 }));
            }
        }
    }
}

#[test]
fn digits_are_the_hexadecimal_digits_of_std() {
    for code in 0..=0x10ffffu32 {
        if let Some(c) = char::from_u32(code) {
            let expected = c.to_digit(16).map(|d| d as u8);
            assert_eq!(hex_digit(c), expected, "U+{code:04X}");
        }
    }
}
