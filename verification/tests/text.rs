use rustystreamer::text::{
    chars_of, concat_strings, decimal_string, parse_u32, parse_u64, replace, split_chars, str_eq,
};

fn chars(s: &str) -> Vec<char> {
    s.chars().collect()
}

#[test]
fn decimal_strings() {
    assert_eq!(decimal_string(0), "0");
    assert_eq!(decimal_string(7), "7");
    assert_eq!(decimal_string(1234), "1234");
    assert_eq!(decimal_string(u64::MAX), u64::MAX.to_string());
}

#[test]
fn parse_u64_like_std() {
    for s in ["0", "42", "+42", "007", "18446744073709551615", "18446744073709551616", "", "+", "-1", "1a", " 1", "++1"] {
        assert_eq!(parse_u64(&chars(s)), s.parse::<u64>().ok(), "input {:?}", s);
    }
}

#[test]
fn parse_u32_like_std() {
    for s in ["0", "4294967295", "4294967296", "+9", "x"] {
        assert_eq!(parse_u32(&chars(s)), s.parse::<u32>().ok(), "input {:?}", s);
    }
}

#[test]
fn split_like_std() {
    for s in ["bytes=0-100", "a--b", "", "=", "x=y=z-"] {
        let expected: Vec<Vec<char>> = s.split(&['=', '-'][..]).map(|p| p.chars().collect()).collect();
        assert_eq!(split_chars(&chars(s), &vec!['=', '-']), expected);
    }
}

#[test]
fn replace_like_std() {
    let cases = [("aaa", "aa", "b"), ("abcabc", "bc", "XY"), ("ab", "", "x"), ("", "", "x"), ("{t}{t}", "{t}", "{t}{t}"), ("héllo", "l", "L")];
    for (s, p, r) in cases {
        assert_eq!(replace(s, p, r), s.replace(p, r), "case {:?}", (s, p, r));
    }
}

#[test]
fn concat_and_compare() {
    let parts = vec!["ab".to_string(), "".to_string(), "c".to_string()];
    assert_eq!(concat_strings(&parts), "abc");
    assert!(str_eq("abc", "abc"));
    assert!(!str_eq("abc", "abd"));
    assert!(!str_eq("ab", "abc"));
    assert_eq!(chars_of("héllo"), chars("héllo"));
}

#[test]
fn written_numbers_read_back() {
    for n in [0u64, 9, 10, 4294967295, 18446744073709551615] {
        let s = decimal_string(n);
        assert_eq!(parse_u64(&chars(&s)), Some(n));
    }
    for n in [0u32, 77, u32::MAX] {
        assert_eq!(rustystreamer::controller::parse_collection_id(&n.to_string()), Some(rustystreamer::collection_id::CollectionId(n)));
    }
}
