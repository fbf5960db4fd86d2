use svoyak::text::{decimal_string, parse_i64, same_text, split_on_char};

#[test]
fn decimal_writes_like_to_string() {
    for n in [0i64, 7, 10, 99, 100, -1, -45, 1234567890123, i64::MAX, i64::MIN] {
        assert_eq!(decimal_string(n), n.to_string());
    }
}

#[test]
fn parse_reads_like_str_parse() {
    for s in ["0", "42", "-42", "+42", "007", "9223372036854775807", "-9223372036854775808"] {
        assert_eq!(parse_i64(s), s.parse::<i64>().ok());
    }
    for s in ["", "-", "+", "4a", " 4", "9223372036854775808", "-9223372036854775809", "1-2"] {
        assert_eq!(parse_i64(s), None);
        assert!(s.parse::<i64>().is_err());
    }
}

#[test]
fn decimal_parses_back() {
    for n in [0i64, 5, -5, 80, 160, i64::MIN, i64::MAX] {
        assert_eq!(parse_i64(&decimal_string(n)), Some(n));
    }
}

#[test]
fn split_matches_str_split() {
    for s in ["", ":", "a:b:c", "player:1:2", "a::b", "абв:где"] {
        let ours: Vec<String> = split_on_char(s, ':');
        let std: Vec<String> = s.split(':').map(|x| x.to_string()).collect();
        assert_eq!(ours, std);
    }
}

#[test]
fn same_text_compares_characters() {
    assert!(same_text("Подтверждаю", "Подтверждаю"));
    assert!(!same_text("Подтверждаю", "Повторить"));
    assert!(!same_text("a", "ab"));
}
