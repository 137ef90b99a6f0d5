use clear_packets::text::{parse_u64, split_at_dashes};

fn fields(s: &str) -> Vec<String> {
    split_at_dashes(s)
        .into_iter()
        .map(|field| field.into_iter().collect())
        .collect()
}

#[test]
fn decimal_numbers() {
    assert_eq!(parse_u64("0"), Some(0));
    assert_eq!(parse_u64("18446744073709551615"), Some(u64::MAX));
    assert_eq!(parse_u64("18446744073709551616"), None);
    assert_eq!(parse_u64("99999999999999999999999"), None);
    assert_eq!(parse_u64("+7"), Some(7));
    assert_eq!(parse_u64("007"), Some(7));
    assert_eq!(parse_u64("+"), None);
    assert_eq!(parse_u64("++7"), None);
    assert_eq!(parse_u64(""), None);
    assert_eq!(parse_u64("-1"), None);
    assert_eq!(parse_u64(" 1"), None);
    assert_eq!(parse_u64("1_000"), None);
    assert_eq!(parse_u64("٣"), None);
}

#[test]
fn decimal_numbers_are_read_as_std_reads_them() {
    for s in [
        "", "+", "-", "0", "+0", "-0", "00", "12", "+12", "1+2", "1.0", "0x10", "1e3", " 1", "1 ",
        "18446744073709551614", "+18446744073709551615", "18446744073709551620", "000000000000000000000000001",
    ] {
        assert_eq!(parse_u64(s), s.parse::<u64>().ok(), "{:?}", s);
    }
}

#[test]
fn decimal_numbers_are_read_back() {
    for n in [0, 9, 10, 1234567890, u64::MAX - 1, u64::MAX] {
        assert_eq!(parse_u64(&n.to_string()), Some(n));
    }
}

#[test]
fn dashes_separate_fields() {
    assert_eq!(fields("cosmos-hub-4"), ["cosmos", "hub", "4"]);
    assert_eq!(fields("ibc"), ["ibc"]);
    assert_eq!(fields(""), [""]);
    assert_eq!(fields("-"), ["", ""]);
    assert_eq!(fields("a--b-"), ["a", "", "b", ""]);
}

#[test]
fn joined_fields_are_the_string() {
    for s in ["", "-", "a", "a-b", "--a--", "é-ß"] {
        assert_eq!(fields(s).join("-"), s);
    }
}
