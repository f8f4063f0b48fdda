use fas_rs::sensor::{disable_fpsgo, enable_fpsgo};
use fas_rs::sort::{sorted_u32, sorted_usize};
use fas_rs::text::{
    chars_of, find_first, is_whitespace, join, parse_numbers, parse_unsigned, same_chars,
    same_text, stands_at, strip_all, to_decimal, trim_bounds, trimmed_is,
};
use fas_rs::write_pool::FileOp;

fn chars(s: &str) -> Vec<char> {
    s.chars().collect()
}

#[test]
fn the_characters_of_a_string() {
    assert_eq!(chars_of("aé漢"), vec!['a', 'é', '漢']);
    assert_eq!(chars_of(""), Vec::<char>::new());
}

#[test]
fn equal_texts() {
    assert!(same_text("auto", "auto"));
    assert!(same_text("", ""));
    assert!(!same_text("auto", "Auto"));
    assert!(!same_text("auto", "aut"));
    assert!(!same_text("aut", "auto"));
    assert!(same_chars(&chars("ab"), &chars("ab")));
    assert!(!same_chars(&chars("ab"), &chars("ba")));
}

#[test]
fn whitespace_is_what_the_standard_library_takes_for_it() {
    for n in 0..=0x11_0000u32 {
        if let Some(c) = char::from_u32(n) {
            assert_eq!(is_whitespace(c), c.is_whitespace(), "U+{n:04X}");
        }
    }
}

#[test]
fn the_bounds_of_the_trimmed_part() {
    assert_eq!(trim_bounds(&chars("  ab c \n"), 0, 8), (2, 6));
    assert_eq!(trim_bounds(&chars("abc"), 0, 3), (0, 3));
    assert_eq!(trim_bounds(&chars("   "), 0, 3), (3, 3));
    assert_eq!(trim_bounds(&chars(""), 0, 0), (0, 0));
    assert_eq!(trim_bounds(&chars("a b c"), 1, 4), (2, 3));
    assert_eq!(trim_bounds(&chars("\u{3000}x\u{a0}"), 0, 3), (1, 2));
}

#[test]
fn a_string_is_a_word_but_for_whitespace() {
    assert!(trimmed_is("performance", "performance"));
    assert!(trimmed_is(" \tperformance\n", "performance"));
    assert!(!trimmed_is("performance2", "performance"));
    assert!(!trimmed_is("per formance", "performance"));
    assert!(!trimmed_is("", "performance"));
    assert!(trimmed_is("  ", ""));
    for s in ["x", " x", "x ", " x y ", "", "\n\n", "performance\n"] {
        for w in ["x", "x y", "", "performance"] {
            assert_eq!(trimmed_is(s, w), s.trim() == w);
        }
    }
}

#[test]
fn the_first_place_of_a_character() {
    assert_eq!(find_first(&chars("com.game:render"), ':'), 8);
    assert_eq!(find_first(&chars("a:b:c"), ':'), 1);
    assert_eq!(find_first(&chars(":a"), ':'), 0);
    assert_eq!(find_first(&chars("abc"), ':'), 3);
    assert_eq!(find_first(&chars(""), ':'), 0);
}

#[test]
fn a_pattern_stands_at_a_place() {
    assert!(stands_at(&chars("xpolicy"), 1, &chars("policy")));
    assert!(!stands_at(&chars("xpolicy"), 0, &chars("policy")));
    assert!(!stands_at(&chars("xpolic"), 1, &chars("policy")));
    assert!(stands_at(&chars("abc"), 3, &chars("")));
}

#[test]
fn strip_all_is_replace_by_nothing() {
    for s in ["policy4", "4", "", "ppolicyolicy", "policypolicy", "polic", "a-b--c", "---"] {
        for p in ["policy", "-", "--", ""] {
            let want: String = s.replace(p, "");
            assert_eq!(strip_all(&chars(s), &chars(p)), chars(&want), "{s:?} {p:?}");
        }
    }
    assert_eq!(strip_all(&chars("aaa"), &chars("aa")), chars("a"));
}

#[test]
fn parse_unsigned_reads_a_number_up_to_its_limit() {
    let read = |s: &str, max: u64| parse_unsigned(&chars(s), 0, s.chars().count(), max);
    assert_eq!(read("0", 255), Some(0));
    assert_eq!(read("255", 255), Some(255));
    assert_eq!(read("256", 255), None);
    assert_eq!(read("+255", 255), Some(255));
    assert_eq!(read("000255", 255), Some(255));
    assert_eq!(read("", 255), None);
    assert_eq!(read("+", 255), None);
    assert_eq!(read("-0", 255), None);
    assert_eq!(read("1 ", 255), None);
    assert_eq!(read("18446744073709551615", u64::MAX), Some(u64::MAX));
    assert_eq!(read("18446744073709551616", u64::MAX), None);
    assert_eq!(read("99999999999999999999", u64::MAX), None);
    assert_eq!(read("7", 0), None);
    assert_eq!(read("0", 0), Some(0));
    assert_eq!(parse_unsigned(&chars("ab12cd"), 2, 4, 99), Some(12));
    for s in ["12", "+3", "", "+", "-4", "256", "0255", "2a", "٣"] {
        assert_eq!(read(s, 255), s.parse::<u8>().ok().map(u64::from), "{s:?}");
    }
}

#[test]
fn parse_numbers_reads_each_word() {
    assert_eq!(parse_numbers(&chars("1 22\t333\n"), 1000), Some(vec![1, 22, 333]));
    assert_eq!(parse_numbers(&chars("1 22 1001"), 1000), None);
    assert_eq!(parse_numbers(&chars("   "), 1000), Some(vec![]));
    assert_eq!(parse_numbers(&chars("x"), 1000), None);
}

#[test]
fn to_decimal_writes_a_number_in_base_ten() {
    assert_eq!(to_decimal(0), "0");
    assert_eq!(to_decimal(9), "9");
    assert_eq!(to_decimal(10), "10");
    assert_eq!(to_decimal(400), "400");
    assert_eq!(to_decimal(1234567890), "1234567890");
    assert_eq!(to_decimal(u64::MAX), "18446744073709551615");
}

#[test]
fn join_puts_one_slash_between_directory_and_name() {
    assert_eq!(join("/a/b", "c"), "/a/b/c");
    assert_eq!(join("/a/b/", "c"), "/a/b/c");
    assert_eq!(join("", "c"), "c");
    assert_eq!(join("/", "c"), "/c");
    assert_eq!(join("a", ""), "a/");
}

#[test]
fn sorting_puts_the_numbers_in_ascending_order() {
    assert_eq!(sorted_u32(&vec![120, 45, 90, 30, 45]), vec![30, 45, 45, 90, 120]);
    assert_eq!(sorted_u32(&vec![]), Vec::<u32>::new());
    assert_eq!(sorted_u32(&vec![u32::MAX, 0]), vec![0, u32::MAX]);
    assert_eq!(sorted_usize(&vec![3, 1, 2]), vec![1, 2, 3]);
    assert_eq!(sorted_usize(&vec![1, 2, 3]), vec![1, 2, 3]);
    assert_eq!(sorted_usize(&vec![5]), vec![5]);
}

#[test]
fn the_sensor_is_switched_by_a_framed_write() {
    let file = "/sys/kernel/fpsgo/common/fpsgo_enable".to_string();
    assert_eq!(
        enable_fpsgo(),
        vec![
            FileOp::SetMode(file.clone(), 0o644),
            FileOp::Write(file.clone(), "1".to_string()),
            FileOp::SetMode(file.clone(), 0o444),
        ]
    );
    assert_eq!(
        disable_fpsgo(),
        vec![
            FileOp::SetMode(file.clone(), 0o644),
            FileOp::Write(file.clone(), "0".to_string()),
            FileOp::SetMode(file, 0o444),
        ]
    );
}
