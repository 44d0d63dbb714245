use trustos_drivers::util::{
    append_chars, chars_to_string, decode_text, push_decimal, push_hex_lower, push_hex_upper,
    push_hex_upper_padded, push_line, push_str, push_text, push_text_padded, read_be32, read_le16,
    read_le32, read_le64, string_chars, string_from_chars, tdiv_i32, tdiv_i64, trim_chars,
    trim_end_chars, utf8_decode,
};

fn text(cs: &Vec<char>) -> String {
    cs.iter().collect()
}

#[test]
fn little_and_big_endian_reads() {
    let b = [0x78u8, 0x56, 0x34, 0x12, 0xF0, 0xDE, 0xBC, 0x9A];
    assert_eq!(read_le16(&b, 0), 0x5678);
    assert_eq!(read_le16(&b, 2), 0x1234);
    assert_eq!(read_le32(&b, 0), 0x1234_5678);
    assert_eq!(read_le64(&b, 0), 0x9ABC_DEF0_1234_5678);
    assert_eq!(read_be32(&b, 0), 0x7856_3412);
}

#[test]
fn decimal_digits() {
    let mut out = Vec::new();
    push_decimal(&mut out, 0);
    assert_eq!(text(&out), "0");
    let mut out = vec!['x'];
    push_decimal(&mut out, 1_234_567);
    assert_eq!(text(&out), "x1234567");
    let mut out = Vec::new();
    push_decimal(&mut out, u64::MAX);
    assert_eq!(text(&out), "18446744073709551615");
}

#[test]
fn hex_digits_upper_lower_and_padded() {
    let mut out = Vec::new();
    push_hex_upper(&mut out, 0xBEEF);
    assert_eq!(text(&out), "BEEF");
    let mut out = Vec::new();
    push_hex_lower(&mut out, 0x1002);
    assert_eq!(text(&out), "1002");
    let mut out = Vec::new();
    push_hex_lower(&mut out, 0xabcd);
    assert_eq!(text(&out), "abcd");
    let mut out = Vec::new();
    push_hex_upper_padded(&mut out, 0x1A, 4);
    assert_eq!(text(&out), "001A");
    let mut out = Vec::new();
    push_hex_upper_padded(&mut out, 0x12345, 4);
    assert_eq!(text(&out), "12345");
}

#[test]
fn text_padding_and_appending() {
    let mut out = Vec::new();
    push_text_padded(&mut out, "ab", 5);
    assert_eq!(text(&out), "ab   ");
    let mut out = Vec::new();
    push_text_padded(&mut out, "abcdef", 3);
    assert_eq!(text(&out), "abcdef");
    let mut out = vec!['['];
    push_str(&mut out, "ok");
    push_text(&mut out, "é]");
    assert_eq!(text(&out), "[oké]");
    let mut out = vec!['a'];
    append_chars(&mut out, &vec!['b', 'c']);
    assert_eq!(out, vec!['a', 'b', 'c']);
}

#[test]
fn strings_and_chars_convert_both_ways() {
    assert_eq!(string_chars("héllo"), vec!['h', 'é', 'l', 'l', 'o']);
    assert_eq!(string_from_chars(&vec!['o', 'k']), "ok");
    assert_eq!(chars_to_string(vec![]), "");
    let mut lines = vec![String::from("first")];
    push_line(&mut lines, vec!['t', 'w', 'o']);
    assert_eq!(lines, vec![String::from("first"), String::from("two")]);
}

#[test]
fn trimming_removes_outer_whitespace_only() {
    let cs: Vec<char> = "  a b \t\n".chars().collect();
    assert_eq!(text(&trim_chars(&cs)), "a b");
    assert_eq!(text(&trim_end_chars(&cs)), "  a b");
    let blank: Vec<char> = "   ".chars().collect();
    assert!(trim_chars(&blank).is_empty());
}

#[test]
fn division_rounds_toward_zero() {
    assert_eq!(tdiv_i32(7, 2), 3);
    assert_eq!(tdiv_i32(-7, 2), -3);
    assert_eq!(tdiv_i64(-9, 4), -2);
    assert_eq!(tdiv_i64(9, 4), 2);
}

#[test]
fn utf8_decoding_accepts_valid_and_refuses_invalid() {
    assert_eq!(utf8_decode(b"abc"), Some(String::from("abc")));
    assert_eq!(utf8_decode(&[0xFF, 0x00]), None);
    assert_eq!(decode_text("señal".as_bytes()), Some(String::from("señal")));
    assert_eq!(decode_text(&[0xC3]), None);
}
