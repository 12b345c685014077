use terrible_quote_bot::numbers::{int_to_text, parse_i32, push_int};
use terrible_quote_bot::text::{is_whitespace, trim_text};

#[test]
fn trim_matches_std_trim() {
    let samples = [
        "",
        "   ",
        "abc",
        "  abc  ",
        "\t\n a b \r\n",
        "\u{3000}quote\u{2003}",
        "\u{85}x\u{a0}",
        "x\u{200b}",
        " \u{1680}mixed  words\u{2029}",
    ];
    for s in samples.iter() {
        assert_eq!(trim_text(s), s.trim().to_string(), "trimming {:?}", s);
    }
}

#[test]
fn whitespace_matches_std() {
    for u in 0u32..0x3100 {
        if let Some(c) = std::char::from_u32(u) {
            assert_eq!(is_whitespace(c), c.is_whitespace(), "char {:x}", u);
        }
    }
}

#[test]
fn parse_matches_std_parse() {
    let samples = [
        "", "0", "7", "+7", "-7", "-", "+", "007", "12a", " 5", "5 ", "2147483647",
        "2147483648", "-2147483648", "-2147483649", "99999999999999999999", "+-1", "--1", "١",
        "-0", "0000000000000000000000000000012",
    ];
    for s in samples.iter() {
        assert_eq!(parse_i32(s), s.parse::<i32>().ok(), "parsing {:?}", s);
    }
}

#[test]
fn int_text_matches_display() {
    let samples = [0, 1, 9, 10, 99, 100, -1, -10, 12345, i32::MAX, i32::MIN];
    for n in samples.iter() {
        assert_eq!(int_to_text(*n), n.to_string());
    }
}

#[test]
fn push_int_appends() {
    let mut s = String::from("Quote ");
    push_int(&mut s, -42);
    assert_eq!(s, "Quote -42");
}

#[test]
fn parse_reads_back_printed_numbers() {
    for n in [0, 5, -5, 1000, i32::MAX, i32::MIN].iter() {
        assert_eq!(parse_i32(&int_to_text(*n)), Some(*n));
    }
}

#[test]
fn trimming_twice_changes_nothing_more() {
    for s in [" a ", "\u{3000} b\t", "c", "   "].iter() {
        let once = trim_text(s);
        assert_eq!(trim_text(&once), once);
    }
}
