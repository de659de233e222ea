use rs_dfu::{
    decimal, decimal_padded, hex_fixed, hex_u16, parse_length, parse_size_panics, size_to_length,
};

#[test]
fn hex_ids_are_read() {
    assert_eq!(hex_u16("0483"), Ok(0x0483));
    assert_eq!(hex_u16("df11"), Ok(0xdf11));
    assert_eq!(hex_u16("DF11"), Ok(0xdf11));
    assert_eq!(hex_u16("+ff"), Ok(0xff));
    assert_eq!(hex_u16("ffff"), Ok(0xffff));
    assert_eq!(hex_u16("0000ffff"), Ok(0xffff));
}

#[test]
fn bad_hex_ids_are_refused() {
    for text in ["", "+", "10000", "g1", " 12", "12 ", "-1", "0x12", "1_2"] {
        assert!(hex_u16(text).is_err(), "{text:?} was accepted");
    }
    assert_eq!(hex_u16("zz").unwrap_err(), u16::from_str_radix("zz", 16).unwrap_err().to_string());
}

#[test]
fn lengths_are_read() {
    assert_eq!(parse_length("64K"), Ok(64_000));
    assert_eq!(parse_length("2MB"), Ok(2_000_000));
    assert_eq!(parse_length("2MiB"), Ok(2 * 1024 * 1024));
    assert_eq!(parse_length("51640"), Ok(51640));
    assert_eq!(parse_length("4294967295"), Ok(u32::MAX));
}

#[test]
fn bad_lengths_are_refused() {
    assert_eq!(parse_length("^_^"), Err("invalid digit found in string".to_string()));
    assert_eq!(parse_length(""), Err("cannot parse integer from empty string".to_string()));
    assert!(parse_length("4294967296").is_err());
    assert!(parse_length("5GB").is_err());
}

#[test]
fn size_to_length_passes_and_narrows() {
    assert_eq!(size_to_length(Ok(5)), Ok(5));
    assert_eq!(size_to_length(Ok(u32::MAX as u64)), Ok(u32::MAX));
    let too_big = size_to_length(Ok(u32::MAX as u64 + 1));
    assert_eq!(too_big, Err(u32::try_from(u32::MAX as u64 + 1).unwrap_err().to_string()));
    assert_eq!(size_to_length(Err("bad".to_string())), Err("bad".to_string()));
}

#[test]
fn numbers_are_written_like_format() {
    for v in [0u32, 1, 0xf, 0x10, 0x0800_0000, 0xdead_beef, u32::MAX] {
        assert_eq!(hex_fixed(v, 8), format!("{:08x}", v));
    }
    assert_eq!(hex_fixed(0x1234, 2), "34");
    assert_eq!(hex_fixed(7, 0), "");
    for v in [0usize, 7, 10, 99, 100, 12345678, usize::MAX] {
        assert_eq!(decimal(v), v.to_string());
        assert_eq!(decimal_padded(v, 7), format!("{:7}", v));
        assert_eq!(decimal_padded(v, 2), format!("{:2}", v));
    }
}

#[test]
fn hex_errors_are_the_parse_error_text() {
    for text in ["", "+", "10000", "g1", "-1"] {
        assert_eq!(hex_u16(text).unwrap_err(), u16::from_str_radix(text, 16).unwrap_err().to_string());
    }
}

#[test]
fn size_texts_that_overflow_the_parser() {
    for text in [
        "184467440737095516155",
        "1844674407370955161.55",
        "18_446_744_073_709_551_6159",
        "0018446744073709551615 9K",
        "18446744073709551615.5",
    ] {
        assert!(parse_size_panics(text), "{text:?} not flagged");
    }
    for text in [
        "18446744073709551615",
        "184467440737095516154",
        "99999999999999999999999",
        "1844674407370955161.54",
        "x184467440737095516155",
        "1e184467440737095516155",
        "64K",
        "",
        "2.5 MiB",
    ] {
        assert!(!parse_size_panics(text), "{text:?} flagged");
    }
}

#[test]
fn lengths_beyond_u64_are_refused_without_overflow() {
    assert_eq!(parse_length("184467440737095516154"), Err("number too large to fit in target type".to_string()));
    assert!(parse_length("99999999999999999999999").is_err());
    assert!(parse_length("1844674407370955161.54").is_err());
}
