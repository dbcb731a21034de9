use acid64c::utils::text::{
    i64_to_string, parse_i32, parse_u8, str_replace, str_split_char, str_split_whitespace,
    str_to_ascii_lowercase, str_trim,
};

#[test]
fn trim_and_split() {
    assert_eq!(str_trim("  a b \t"), "a b");
    assert_eq!(str_split_char("1.2..3", '.'), vec!["1", "2", "", "3"]);
    assert_eq!(str_split_whitespace("  5:00  4:30(G) "), vec!["5:00", "4:30(G)"]);
}

#[test]
fn parse_numbers() {
    assert_eq!(parse_i32("-17"), Some(-17));
    assert_eq!(parse_i32("+8"), Some(8));
    assert_eq!(parse_i32("2147483648"), None);
    assert_eq!(parse_i32(""), None);
    assert_eq!(parse_u8("255"), Some(255));
    assert_eq!(parse_u8("256"), None);
}

#[test]
fn decimal_reads_back() {
    for n in [i32::MIN, -1, 0, 9, 10, 12345, i32::MAX] {
        let text = i64_to_string(n as i64);
        assert_eq!(text, n.to_string());
        assert_eq!(parse_i32(&text), Some(n));
    }
}

#[test]
fn replace_and_lowercase() {
    assert_eq!(str_replace("a.sid.sid", ".sid", ".ssl"), "a.ssl.ssl");
    assert_eq!(str_replace("aaa", "aa", "b"), "ba");
    assert_eq!(str_to_ascii_lowercase("/MUSICIANS/Ä/X.sid"), "/musicians/Ä/x.sid");
}

#[test]
fn lowercase_keeps_other_chars() {
    assert_eq!(str_to_ascii_lowercase("ABç"), "abç");
}
