use svdp::tools::tcpcli::target;
use svdp::strmap::StrMap;
use svdp::textbuf::{chars_le_exec, chars_of, divisible, parse_u64, push_decimal, replace, str_eq};

fn s(v: &[char]) -> String {
    v.iter().collect()
}

#[test]
fn parse_u64_reads_decimal_text() {
    assert_eq!(parse_u64(&chars_of("123")), Some(123));
    assert_eq!(parse_u64(&chars_of("+42")), Some(42));
    assert_eq!(parse_u64(&chars_of("18446744073709551615")), Some(u64::MAX));
    assert_eq!(parse_u64(&chars_of("18446744073709551616")), None);
    assert_eq!(parse_u64(&chars_of("")), None);
    assert_eq!(parse_u64(&chars_of("+")), None);
    assert_eq!(parse_u64(&chars_of("-1")), None);
    assert_eq!(parse_u64(&chars_of("12a")), None);
}

#[test]
fn parse_u64_agrees_with_std() {
    for t in ["0", "7", "+0", "0099", "4294967296", "99999999999999999999", "", " 1", "1 "] {
        assert_eq!(parse_u64(&chars_of(t)), t.parse::<u64>().ok(), "{}", t);
    }
}

#[test]
fn divisible_matches_remainder() {
    assert!(divisible(600, 300));
    assert!(divisible(-600, 300));
    assert!(!divisible(-601, 300));
    assert!(divisible(0, 7));
    assert!(!divisible(5, 3));
}

#[test]
fn replace_swaps_each_occurrence() {
    let r = replace(&chars_of("a+b+c"), "+", "%20");
    assert_eq!(s(&r), "a%20b%20c");
    let r = replace(&chars_of("%7E%7E"), "%7E", "~");
    assert_eq!(s(&r), "~~");
    let r = replace(&chars_of("plain"), "*", "%2A");
    assert_eq!(s(&r), "plain");
}

#[test]
fn decimal_text_of_integers() {
    let mut v = Vec::new();
    push_decimal(&mut v, -120);
    push_decimal(&mut v, 0);
    push_decimal(&mut v, 7);
    assert_eq!(s(&v), "-12007");
}

#[test]
fn text_comparison() {
    assert!(str_eq("abc", "abc"));
    assert!(!str_eq("abc", "abd"));
    assert!(chars_le_exec(&chars_of("Action"), &chars_of("Format")));
    assert!(chars_le_exec(&chars_of("Sig"), &chars_of("Signature")));
    assert!(!chars_le_exec(&chars_of("b"), &chars_of("a")));
}

#[test]
fn strmap_read_after_write() {
    let mut m: StrMap<i32> = StrMap::new();
    assert_eq!(m.len(), 0);
    assert!(m.get("a").is_none());
    m.insert("a".to_string(), 1);
    m.insert("b".to_string(), 2);
    m.insert("a".to_string(), 3);
    assert_eq!(m.len(), 2);
    assert_eq!(m.get("a"), Some(&3));
    assert_eq!(m.get("b"), Some(&2));
    assert_eq!(m.find("c"), None);
    assert_eq!(m.swap_value("b", 9), Some(2));
    assert_eq!(m.get("b"), Some(&9));
    assert_eq!(m.swap_value("zz", 1), None);
    assert_eq!(m.len(), 2);
    let (k, v) = m.entry_at(0);
    assert_eq!((k.as_str(), *v), ("a", 3));
}

#[test]
fn tcp_client_arguments() {
    let a = |v: &[&str]| v.iter().map(|s| s.to_string()).collect::<Vec<String>>();
    assert_eq!(target(&a(&["tcpcli", "10.0.0.1", "{}"])), Some(("10.0.0.1:20000".to_string(), "{}".to_string())));
    assert_eq!(target(&a(&["tcpcli", "::1", "30000", "x"])), Some(("::1:30000".to_string(), "x".to_string())));
    assert_eq!(target(&a(&["tcpcli", "h"])), None);
    assert_eq!(target(&a(&["tcpcli", "h", "1", "2", "3"])), None);
}

#[test]
fn decimal_text_at_the_limits() {
    let mut v = Vec::new();
    push_decimal(&mut v, i128::MIN);
    assert_eq!(s(&v), i128::MIN.to_string());
    let mut v = Vec::new();
    push_decimal(&mut v, i128::MAX);
    assert_eq!(s(&v), i128::MAX.to_string());
    let mut v = Vec::new();
    push_decimal(&mut v, -9);
    push_decimal(&mut v, 10);
    assert_eq!(s(&v), "-910");
}
