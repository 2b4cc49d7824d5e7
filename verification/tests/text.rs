use gitee_data::text::{
    chars_of, compare, compare_bytes, decimal_text, head_before, parse_unsigned, same_text, split,
    Order,
};

#[test]
fn chars_of_lists_every_character() {
    assert_eq!(chars_of("a/é"), vec!['a', '/', 'é']);
    assert_eq!(chars_of(""), Vec::<char>::new());
}

#[test]
fn compare_orders_by_first_difference() {
    assert_eq!(compare("a", "b"), Order::Before);
    assert_eq!(compare("b", "a"), Order::After);
    assert_eq!(compare("abc", "abd"), Order::Before);
    assert_eq!(compare("abc", "abc"), Order::Same);
}

#[test]
fn compare_puts_a_prefix_first() {
    assert_eq!(compare("a", "ab"), Order::Before);
    assert_eq!(compare("ab", "a"), Order::After);
    assert_eq!(compare("", "a"), Order::Before);
    assert_eq!(compare("", ""), Order::Same);
}

#[test]
fn compare_agrees_with_the_order_of_strings() {
    let samples = ["", "a", "B", "z", "é", "https://gitee.com/a/b", "https://gitee.com/a/b/", "~"];
    for a in samples {
        for b in samples {
            let expected = if a < b {
                Order::Before
            } else if a == b {
                Order::Same
            } else {
                Order::After
            };
            assert_eq!(compare(a, b), expected);
        }
    }
}

#[test]
fn compare_bytes_orders_bytes() {
    assert_eq!(compare_bytes(&[1, 2, 3], &[1, 2, 4]), Order::Before);
    assert_eq!(compare_bytes(&[1, 2, 3], &[1, 2]), Order::After);
    assert_eq!(compare_bytes(&[], &[]), Order::Same);
    assert_eq!(compare_bytes(&[255], &[0, 255]), Order::After);
}

#[test]
fn same_text_tells_equal_strings() {
    assert!(same_text("license", "license"));
    assert!(!same_text("license", "licence"));
    assert!(!same_text("a", ""));
}

#[test]
fn split_cuts_at_every_separator() {
    assert_eq!(split("a,b", ','), vec!["a".to_string(), "b".to_string()]);
    assert_eq!(split("abc", ','), vec!["abc".to_string()]);
    assert_eq!(split("t1,t2,t3", ','), vec!["t1".to_string(), "t2".to_string(), "t3".to_string()]);
}

#[test]
fn split_keeps_empty_pieces() {
    assert_eq!(split("a,,b", ','), vec!["a".to_string(), String::new(), "b".to_string()]);
    assert_eq!(split("", ','), vec![String::new()]);
    assert_eq!(split(",", ','), vec![String::new(), String::new()]);
    assert_eq!(split("a,", ','), vec!["a".to_string(), String::new()]);
}

#[test]
fn split_gives_what_the_standard_split_gives() {
    for text in ["", ",", "a", "a,b", ",a,,b,", "é,ü", "one,two,three"] {
        let expected: Vec<String> = text.split(',').map(|piece| piece.to_string()).collect();
        assert_eq!(split(text, ','), expected);
    }
}

#[test]
fn parse_unsigned_reads_digits() {
    assert_eq!(parse_unsigned(b"0"), Some(0));
    assert_eq!(parse_unsigned(b"42"), Some(42));
    assert_eq!(parse_unsigned(b"007"), Some(7));
    assert_eq!(parse_unsigned(b"1234567890"), Some(1234567890));
}

#[test]
fn parse_unsigned_takes_a_plus_sign() {
    assert_eq!(parse_unsigned(b"+7"), Some(7));
    assert_eq!(parse_unsigned(b"+"), None);
    assert_eq!(parse_unsigned(b"++7"), None);
}

#[test]
fn parse_unsigned_refuses_anything_else() {
    assert_eq!(parse_unsigned(b""), None);
    assert_eq!(parse_unsigned(b"-1"), None);
    assert_eq!(parse_unsigned(b" 1"), None);
    assert_eq!(parse_unsigned(b"1 "), None);
    assert_eq!(parse_unsigned(b"1_000"), None);
    assert_eq!(parse_unsigned(b"12a"), None);
    assert_eq!(parse_unsigned(b"1.0"), None);
}

#[test]
fn parse_unsigned_refuses_what_does_not_fit() {
    let largest = usize::MAX.to_string();
    assert_eq!(parse_unsigned(largest.as_bytes()), Some(usize::MAX));
    let too_large = format!("{}0", largest);
    assert_eq!(parse_unsigned(too_large.as_bytes()), None);
    assert_eq!(parse_unsigned(b"999999999999999999999999999999"), None);
    assert_eq!(parse_unsigned(b"99999999999999999999999999999x"), None);
}

#[test]
fn parse_unsigned_agrees_with_the_standard_parser() {
    for text in ["", "+", "-", "0", "+0", "-0", "17", "+17", "017", "1e3", "٣", "18446744073709551615", "18446744073709551616"] {
        assert_eq!(parse_unsigned(text.as_bytes()), text.parse::<usize>().ok());
    }
}

#[test]
fn decimal_text_writes_numerals() {
    assert_eq!(decimal_text(0), "0");
    assert_eq!(decimal_text(7), "7");
    assert_eq!(decimal_text(10), "10");
    assert_eq!(decimal_text(1234567890), "1234567890");
    assert_eq!(decimal_text(u64::MAX), "18446744073709551615");
}

#[test]
fn decimal_text_is_read_back() {
    for n in [0u64, 1, 9, 10, 99, 100, 4096, 1_000_000] {
        assert_eq!(parse_unsigned(decimal_text(n).as_bytes()), Some(n as usize));
    }
}

#[test]
fn head_before_stops_at_the_first_occurrence() {
    assert_eq!(head_before("https://x/archive/v1.zip", "archive"), "https://x/");
    assert_eq!(head_before("archive", "archive"), "");
    assert_eq!(head_before("a-archive-archive", "archive"), "a-");
    assert_eq!(head_before("arch-archive", "archive"), "arch-");
}

#[test]
fn head_before_an_empty_pattern_is_empty() {
    assert_eq!(head_before("abc", ""), "");
    assert_eq!(head_before("", ""), "");
}

#[test]
fn head_before_gives_all_without_an_occurrence() {
    assert_eq!(head_before("https://x/files/v1.zip", "archive"), "https://x/files/v1.zip");
    assert_eq!(head_before("", "archive"), "");
    assert_eq!(head_before("archiv", "archive"), "archiv");
}
