use eslauncher2::text::{
    chars_of, join_str, ends_with, i64_to_decimal, parse_i64, parse_u16, parse_u32, same_text,
    starts_with, str_contains, string_of, u64_to_decimal,
};

#[test]
fn decimal_rendering_matches_to_string() {
    for n in [0u64, 7, 10, 99, 100, 12345, u64::MAX] {
        assert_eq!(u64_to_decimal(n), n.to_string());
    }
    for n in [0i64, -1, 42, -9000, i64::MIN, i64::MAX] {
        assert_eq!(i64_to_decimal(n), n.to_string());
    }
}

#[test]
fn decimal_round_trip() {
    for n in [0u32, 1, 9, 10, 65535, 4294967295] {
        assert_eq!(parse_u32(&u64_to_decimal(n as u64)), Some(n));
    }
}

#[test]
fn parsing_follows_str_parse() {
    for s in ["0", "+5", "5", "", "+", "-1", "12a", "4294967295", "4294967296", " 1", "007"] {
        assert_eq!(parse_u32(s), s.parse::<u32>().ok(), "parsing {:?}", s);
    }
    for s in ["65535", "65536", "+0", "x"] {
        assert_eq!(parse_u16(s), s.parse::<u16>().ok(), "parsing {:?}", s);
    }
    for s in [
        "-9223372036854775808",
        "-9223372036854775809",
        "9223372036854775807",
        "9223372036854775808",
        "-0",
        "+17",
        "-",
        "--1",
        "1700000000",
    ] {
        assert_eq!(parse_i64(s), s.parse::<i64>().ok(), "parsing {:?}", s);
    }
}

#[test]
fn substring_tests() {
    assert!(str_contains("endless-sky-win64.zip", "win64"));
    assert!(!str_contains("endless-sky.tar.gz", "win64"));
    assert!(str_contains("abc", ""));
    assert!(starts_with("WARN  [x] y", "WARN"));
    assert!(!starts_with("WAR", "WARN"));
    assert!(ends_with("a.tar.gz", ".tar.gz"));
    assert!(!ends_with("gz", ".tar.gz"));
    assert!(same_text("é", "é"));
    assert!(!same_text("a", "ab"));
}

#[test]
fn chars_and_strings() {
    let v = chars_of("añb");
    assert_eq!(v, vec!['a', 'ñ', 'b']);
    assert_eq!(string_of(&v), "añb");
    assert_eq!(join_str("foo", "bar"), "foobar");
}
