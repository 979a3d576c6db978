use dahuavto::text::{
    char_vec, decimal_string, find_in, is_white, parse_number, same, second_word, split_once,
    starts_with, strip_of, text_eq, to_decimal, trim_of, trim_start_of, without,
};

fn chars(s: &str) -> Vec<char> {
    s.chars().collect()
}

#[test]
fn white_space_is_that_of_the_standard_library() {
    for n in 0..=0x10ffffu32 {
        if let Some(c) = char::from_u32(n) {
            assert_eq!(is_white(c), c.is_whitespace(), "{:x}", n);
        }
    }
}

#[test]
fn characters_come_in_order() {
    assert_eq!(char_vec("a门b"), vec!['a', '门', 'b']);
    assert_eq!(char_vec(""), Vec::<char>::new());
}

#[test]
fn texts_are_compared() {
    assert!(text_eq("门", "门"));
    assert!(!text_eq("门", "门 "));
    assert!(!text_eq("a", "b"));
    assert!(same(&chars("ab"), &chars("ab")));
    assert!(!same(&chars("ab"), &chars("ac")));
    assert!(starts_with(&chars("config x"), &chars("config")));
    assert!(!starts_with(&chars("con"), &chars("config")));
}

#[test]
fn space_is_trimmed() {
    for s in ["", "  ", " a ", "\u{3000}a b\t\r\n", "a"] {
        let c = chars(s);
        assert_eq!(trim_of(&c).iter().collect::<String>(), s.trim());
        assert_eq!(trim_start_of(&c).iter().collect::<String>(), s.trim_start());
    }
}

#[test]
fn quotes_are_stripped() {
    for s in ["''", "'a'", "''a'b''", "a", "'", ""] {
        let c = chars(s);
        assert_eq!(strip_of(&c, '\'').iter().collect::<String>(), s.trim_matches('\''));
    }
}

#[test]
fn first_occurrence_is_found() {
    assert_eq!(find_in(&chars("a:b:c"), ':'), 1);
    assert_eq!(find_in(&chars("abc"), ':'), 3);
    let text = chars("host:80:1");
    let (host, port) = split_once(&text, ':').unwrap();
    assert_eq!(host.iter().collect::<String>(), "host");
    assert_eq!(port.iter().collect::<String>(), "80:1");
    assert!(split_once(&chars("host"), ':').is_none());
}

#[test]
fn patterns_are_removed() {
    for s in ["config config a", "configconfig ", "confconfig ig a", "config", ""] {
        let c = chars(s);
        let left: String = without(&c, &chars("config ")).iter().collect();
        assert_eq!(left, s.replace("config ", ""));
    }
}

#[test]
fn second_word_is_taken() {
    for s in ["dahuavto_device 1", "dahuavto_device", "  a  b c", "dahuavto_device\t门", ""] {
        let expected = s.split_whitespace().nth(1).map(|w| w.to_string());
        assert_eq!(second_word(&chars(s)), expected);
    }
}

#[test]
fn numbers_are_parsed_as_by_the_standard_library() {
    for s in [
        "0", "80", "65535", "65536", "+5", "+", "-1", "", "007", "1a", " 1", "９", "99999999999",
        "++1",
    ] {
        assert_eq!(parse_number(&chars(s)), s.parse::<u16>().ok(), "{}", s);
    }
}

#[test]
fn decimal_of_a_number_is_parsed_back() {
    for n in [0u64, 7, 10, 516, 65535, u64::MAX] {
        assert_eq!(decimal_string(n), n.to_string());
    }
    for n in [0u16, 9, 80, 65535] {
        assert_eq!(parse_number(&to_decimal(n as u64)), Some(n));
    }
}
