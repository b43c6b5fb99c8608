use poe_trans::text::{
    contains, decimal_string, ends_with, join_lines, parse_i32, replace, skip_chars, split_lines,
    starts_with, to_chars,
};

#[test]
fn parse_i32_reads_signed_decimals() {
    assert_eq!(parse_i32("0"), Some(0));
    assert_eq!(parse_i32("43989"), Some(43989));
    assert_eq!(parse_i32("-17"), Some(-17));
    assert_eq!(parse_i32("+17"), Some(17));
    assert_eq!(parse_i32("007"), Some(7));
    assert_eq!(parse_i32("2147483647"), Some(i32::MAX));
    assert_eq!(parse_i32("-2147483648"), Some(i32::MIN));
}

#[test]
fn parse_i32_refuses_what_is_no_number() {
    assert_eq!(parse_i32(""), None);
    assert_eq!(parse_i32("-"), None);
    assert_eq!(parse_i32("+"), None);
    assert_eq!(parse_i32("12a"), None);
    assert_eq!(parse_i32(" 12"), None);
    assert_eq!(parse_i32("１２"), None);
    assert_eq!(parse_i32("2147483648"), None);
    assert_eq!(parse_i32("-2147483649"), None);
    assert_eq!(parse_i32("99999999999999999999"), None);
}

#[test]
fn decimal_string_writes_what_parse_reads() {
    assert_eq!(decimal_string(0), "0");
    assert_eq!(decimal_string(7), "7");
    assert_eq!(decimal_string(10), "10");
    assert_eq!(decimal_string(-305), "-305");
    assert_eq!(decimal_string(i64::MAX), "9223372036854775807");
    assert_eq!(decimal_string(i64::MIN), "-9223372036854775808");
    for n in [-1000, -1, 0, 1, 65536, 2147483647] {
        assert_eq!(parse_i32(&decimal_string(n as i64)), Some(n));
    }
}

#[test]
fn lines_split_at_line_feeds() {
    assert_eq!(split_lines("a\nb"), vec!["a", "b"]);
    assert_eq!(split_lines("a"), vec!["a"]);
    assert_eq!(split_lines(""), vec![""]);
    assert_eq!(split_lines("a\n"), vec!["a", ""]);
    assert_eq!(split_lines("\n\n"), vec!["", "", ""]);
}

#[test]
fn lines_join_with_line_feeds() {
    let lines = vec!["一", "二", "三"];
    assert_eq!(join_lines(&lines, 0), "");
    assert_eq!(join_lines(&lines, 1), "一");
    assert_eq!(join_lines(&lines, 2), "一\n二");
    assert_eq!(join_lines(&lines, 3), "一\n二\n三");
}

#[test]
fn replace_takes_occurrences_from_the_left() {
    assert_eq!(replace("增幅(辅)", "(", "（"), "增幅（辅)");
    assert_eq!(replace("aaa", "aa", "b"), "ba");
    assert_eq!(replace("Enhance Support", " Support", ""), "Enhance");
    assert_eq!(replace("abc", "", "x"), "abc");
    assert_eq!(replace("", "a", "x"), "");
    assert_eq!(replace("xyxy", "xy", "xyz"), "xyzxyz");
}

#[test]
fn prefixes_suffixes_and_infixes() {
    assert!(starts_with("配置 灵魂", "配置 "));
    assert!(starts_with("abc", ""));
    assert!(!starts_with("ab", "abc"));
    assert!(ends_with("来自暗影", "暗影"));
    assert!(!ends_with("影", "暗影"));
    assert!(contains("永久费西亚联盟", "费西亚"));
    assert!(contains("abc", ""));
    assert!(!contains("abc", "ca"));
    assert_eq!(skip_chars("配置 灵魂", 3), "灵魂");
    assert_eq!(to_chars("a灵"), vec!['a', '灵']);
}
