use workflow_coordinator::server::Server;
use workflow_coordinator::text::{
    append_decimal, append_decimal_digits, char_is_whitespace, parse_u64, split_whitespace,
};

#[test]
fn whitespace_is_what_unicode_calls_white_space() {
    for code in 0..=0x10FFFFu32 {
        if let Some(c) = char::from_u32(code) {
            assert_eq!(char_is_whitespace(c), c.is_whitespace(), "U+{:04X}", code);
        }
    }
}

#[test]
fn splitting_agrees_with_the_standard_library() {
    let samples = [
        "",
        " ",
        "   \t\n ",
        "one",
        " one",
        "one ",
        "one two",
        "  one   two\tthree\n",
        "1 127.0.0.1:8100 127.0.0.1:8200",
        "a\u{00A0}b\u{2003}c\u{3000}d",
        "\u{0085}x\u{1680}y\u{2028}z\u{2029}",
        "na\u{00EF}ve caf\u{00E9} \u{1F600} end",
        "zero\u{200B}width",
    ];
    for sample in samples.iter() {
        let expected: Vec<String> = sample.split_whitespace().map(String::from).collect();
        assert_eq!(split_whitespace(sample), expected, "{:?}", sample);
    }
}

#[test]
fn splitting_yields_the_words_in_order() {
    assert_eq!(split_whitespace("  alpha beta\tgamma "), vec!["alpha", "beta", "gamma"]);
    assert_eq!(split_whitespace(" \n "), Vec::<String>::new());
}

#[test]
fn numbers_are_read_in_decimal() {
    assert_eq!(parse_u64("0"), Some(0));
    assert_eq!(parse_u64("7"), Some(7));
    assert_eq!(parse_u64("42"), Some(42));
    assert_eq!(parse_u64("+42"), Some(42));
    assert_eq!(parse_u64("007"), Some(7));
    assert_eq!(parse_u64("18446744073709551615"), Some(u64::MAX));
}

#[test]
fn what_is_no_number_is_refused() {
    assert_eq!(parse_u64(""), None);
    assert_eq!(parse_u64("+"), None);
    assert_eq!(parse_u64("-1"), None);
    assert_eq!(parse_u64("++1"), None);
    assert_eq!(parse_u64("1+"), None);
    assert_eq!(parse_u64("12a"), None);
    assert_eq!(parse_u64(" 12"), None);
    assert_eq!(parse_u64("12 "), None);
    assert_eq!(parse_u64("1_000"), None);
    assert_eq!(parse_u64("\u{0661}\u{0662}"), None);
    assert_eq!(parse_u64("18446744073709551616"), None);
    assert_eq!(parse_u64("99999999999999999999999"), None);
}

#[test]
fn reading_agrees_with_the_standard_library() {
    let samples = [
        "", "+", "-", "0", "+0", "-0", "00", "1", "+1", "-1", "10", "0x10", "1e3", "12345678901234567890",
        "18446744073709551614", "18446744073709551615", "18446744073709551616",
        "018446744073709551615", "+18446744073709551615", "28446744073709551615",
        "184467440737095516150", "9", "a", "1a", "a1", " 1", "1 ", "\u{FF11}",
    ];
    for sample in samples.iter() {
        assert_eq!(parse_u64(sample), sample.parse::<u64>().ok(), "{:?}", sample);
    }
}

#[test]
fn numbers_are_written_in_decimal() {
    let mut text = String::from("n=");
    append_decimal(&mut text, 1234);
    assert_eq!(text, "n=1234");
    append_decimal(&mut text, -56);
    assert_eq!(text, "n=1234-56");
    append_decimal(&mut text, 0);
    assert_eq!(text, "n=1234-560");
}

#[test]
fn writing_agrees_with_formatting() {
    let samples = [
        i64::MIN, i64::MIN + 1, -1_000_000_007, -100, -11, -10, -9, -1, 0, 1, 9, 10, 11, 99, 100,
        1_000_000_007, i64::MAX - 1, i64::MAX,
    ];
    for &n in samples.iter() {
        let mut text = String::new();
        append_decimal(&mut text, n);
        assert_eq!(text, format!("{}", n));
    }
    for &n in [0u64, 5, 10, 12345, u64::MAX - 1, u64::MAX].iter() {
        let mut text = String::from("#");
        append_decimal_digits(&mut text, n);
        assert_eq!(text, format!("#{}", n));
    }
}

#[test]
fn writing_then_reading_gives_the_number_back() {
    for &n in [0u64, 1, 9, 10, 4711, u64::MAX].iter() {
        let mut text = String::new();
        append_decimal_digits(&mut text, n);
        assert_eq!(parse_u64(&text), Some(n));
    }
}

#[test]
fn a_node_description_is_read() {
    assert_eq!(
        Server::parse("1 127.0.0.1:8100 127.0.0.1:8200"),
        Ok(Server {
            id: 1,
            addr_api: String::from("127.0.0.1:8100"),
            addr_raft: String::from("127.0.0.1:8200"),
        })
    );
    assert_eq!(
        Server::parse("  +42\tapi.example:1 \n raft.example:2  "),
        Ok(Server {
            id: 42,
            addr_api: String::from("api.example:1"),
            addr_raft: String::from("raft.example:2"),
        })
    );
}

#[test]
fn a_node_description_needs_three_fields() {
    assert_eq!(
        Server::parse("1 127.0.0.1:8100"),
        Err(String::from("bad node spec: '1 127.0.0.1:8100' (need 3 fields)"))
    );
    assert_eq!(Server::parse(""), Err(String::from("bad node spec: '' (need 3 fields)")));
    assert_eq!(
        Server::parse("1 a b c"),
        Err(String::from("bad node spec: '1 a b c' (need 3 fields)"))
    );
    assert_eq!(
        Server::parse("x y"),
        Err(String::from("bad node spec: 'x y' (need 3 fields)"))
    );
}

#[test]
fn the_id_of_a_node_description_is_checked() {
    assert!(Server::check_id("1 a b"));
    assert!(Server::check_id("18446744073709551615 a b"));
    assert!(!Server::check_id("18446744073709551616 a b"));
    assert!(!Server::check_id("one a b"));
    assert!(!Server::check_id("-1 a b"));
    assert!(Server::check_id("one a"));
    assert!(Server::check_id(""));
    assert!(Server::check_id("one a b c"));
}

#[test]
fn an_unreadable_id_is_told_apart() {
    assert_eq!(Server::try_parse("one a b"), None);
    assert_eq!(Server::try_parse("-1 a b"), None);
    assert_eq!(
        Server::try_parse("7 a b"),
        Some(Ok(Server { id: 7, addr_api: String::from("a"), addr_raft: String::from("b") }))
    );
    assert_eq!(
        Server::try_parse("one a"),
        Some(Err(String::from("bad node spec: 'one a' (need 3 fields)")))
    );
}
