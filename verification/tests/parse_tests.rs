use ethernet::UioError;

#[test]
fn trim_removes_surrounding_whitespace_only() {
    let r = ethernet::trim_bytes(b" \t foo bar\n");
    assert_eq!(r, b"foo bar".to_vec());
}

#[test]
fn trim_keeps_interior_content_exact() {
    let r = ethernet::trim_bytes(b"\na  b\tc \r\n");
    assert_eq!(r, b"a  b\tc".to_vec());
}

#[test]
fn trim_of_all_whitespace_is_empty() {
    assert_eq!(ethernet::trim_bytes(b" \n\t\r"), Vec::<u8>::new());
    assert_eq!(ethernet::trim_bytes(b""), Vec::<u8>::new());
}

#[test]
fn trim_without_surrounding_whitespace_is_identity() {
    assert_eq!(ethernet::trim_bytes(b"uio_pci_generic"), b"uio_pci_generic".to_vec());
}

#[test]
fn decimal_parses_plain_numerals() {
    assert_eq!(ethernet::parse_decimal_u64(b"0"), Ok(0));
    assert_eq!(ethernet::parse_decimal_u64(b"42"), Ok(42));
    assert_eq!(ethernet::parse_decimal_u64(b"18446744073709551615"), Ok(u64::MAX));
    assert_eq!(ethernet::parse_decimal_u32(b"4294967295"), Ok(u32::MAX));
    assert_eq!(ethernet::parse_decimal_usize(b"4096"), Ok(4096));
}

#[test]
fn decimal_rejects_malformed_and_overflowing_numerals() {
    assert_eq!(ethernet::parse_decimal_u64(b""), Err(UioError::Parse));
    assert_eq!(ethernet::parse_decimal_u64(b"4a2"), Err(UioError::Parse));
    assert_eq!(ethernet::parse_decimal_u64(b"42\n"), Err(UioError::Parse));
    assert_eq!(ethernet::parse_decimal_u64(b"-1"), Err(UioError::Parse));
    assert_eq!(ethernet::parse_decimal_u64(b"18446744073709551616"), Err(UioError::Parse));
    assert_eq!(ethernet::parse_decimal_u32(b"4294967296"), Err(UioError::Parse));
}

#[test]
fn hex_attr_strips_prefix_before_radix_parse() {
    assert_eq!(ethernet::parse_hex_attr(b"0x15b8"), Ok(0x15b8));
    assert_eq!(ethernet::parse_hex_attr(b"0x15b8"), Ok(5560));
    assert_eq!(ethernet::parse_hex_attr(b"0xDEADbeef"), Ok(0xdead_beef));
    assert_eq!(ethernet::parse_hex_attr(b"0x0"), Ok(0));
}

#[test]
fn hex_attr_without_prefix_is_a_parse_failure() {
    assert_eq!(ethernet::parse_hex_attr(b"15b8"), Err(UioError::Parse));
    assert_eq!(ethernet::parse_hex_attr(b"1x5b8"), Err(UioError::Parse));
    assert_eq!(ethernet::parse_hex_attr(b"0"), Err(UioError::Parse));
    assert_eq!(ethernet::parse_hex_attr(b""), Err(UioError::Parse));
}

#[test]
fn hex_attr_with_trailing_non_hex_is_a_parse_failure() {
    assert_eq!(ethernet::parse_hex_attr(b"0x15zz"), Err(UioError::Parse));
    assert_eq!(ethernet::parse_hex_attr(b"0x15b8\n"), Err(UioError::Parse));
    assert_eq!(ethernet::parse_hex_attr(b"0x"), Err(UioError::Parse));
}

#[test]
fn hex_id_trims_after_stripping_the_prefix() {
    assert_eq!(ethernet::parse_hex_id(b"0x8086\n"), Ok(0x8086));
    assert_eq!(ethernet::parse_hex_id(b"0x15B8"), Ok(0x15b8));
    assert_eq!(ethernet::parse_hex_id(b"0x15b8qq"), Err(UioError::Parse));
    assert_eq!(ethernet::parse_hex_id(b"0"), Err(UioError::Parse));
}
