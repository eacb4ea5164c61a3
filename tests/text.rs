use rtools::number::format_number;
use rtools::text::{is_blank, is_white_space, split_lines};

#[test]
fn white_space_agrees_with_std() {
    for code in 0..=0x10FFFFu32 {
        if let Some(c) = char::from_u32(code) {
            assert_eq!(is_white_space(c), c.is_whitespace(), "code point {:x}", code);
        }
    }
}

#[test]
fn blank_agrees_with_trim() {
    for line in ["", " ", "\t \u{a0}", "a", " a ", "\u{2028}x"].iter() {
        assert_eq!(is_blank(line), line.trim().is_empty());
    }
}

#[test]
fn split_lines_cases() {
    assert_eq!(split_lines(""), Vec::<String>::new());
    assert_eq!(split_lines("\n"), vec![String::from("")]);
    assert_eq!(split_lines("a"), vec![String::from("a")]);
    assert_eq!(split_lines("a\n\nb\n"), vec![String::from("a"), String::from(""), String::from("b")]);
    assert_eq!(split_lines("a\nb"), vec![String::from("a"), String::from("b")]);
    assert_eq!(split_lines("\n\n"), vec![String::from(""), String::from("")]);
}

#[test]
fn number_format_agrees_with_std() {
    for n in [0u64, 1, 9, 10, 42, 99_999, 100_000, 999_999, 1_000_000, 123_456_789, u64::MAX] {
        assert_eq!(format_number(n), format!("{:6}", n));
    }
    assert_eq!(format_number(7), "     7");
}
