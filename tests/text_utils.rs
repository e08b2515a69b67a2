use baskelian_toolbox::file::texture_name_of;
use baskelian_toolbox::text::{
    latin1_chars, lines_of, parse_number, read_u8_list, split_chars, string_from_chars,
    strip_suffix_chars,
};

fn chars(s: &str) -> Vec<char> {
    s.chars().collect()
}

#[test]
fn split_keeps_empty_pieces() {
    assert_eq!(split_chars(&chars(""), ' '), vec![Vec::<char>::new()]);
    assert_eq!(
        split_chars(&chars("a  b "), ' '),
        vec![chars("a"), chars(""), chars("b"), chars("")]
    );
}

#[test]
fn lines_drop_final_terminator() {
    assert_eq!(lines_of(&chars("")), Vec::<Vec<char>>::new());
    assert_eq!(lines_of(&chars("a\r\nb\n")), vec![chars("a"), chars("b")]);
    assert_eq!(lines_of(&chars("a\n\nb\r")), vec![chars("a"), chars(""), chars("b\r")]);
}

#[test]
fn decimal_numbers() {
    assert_eq!(parse_number(&chars("0"), 255), Some(0));
    assert_eq!(parse_number(&chars("255"), 255), Some(255));
    assert_eq!(parse_number(&chars("256"), 255), None);
    assert_eq!(parse_number(&chars("+42"), 255), Some(42));
    assert_eq!(parse_number(&chars("007"), 255), Some(7));
    assert_eq!(parse_number(&chars("+"), 255), None);
    assert_eq!(parse_number(&chars(""), 255), None);
    assert_eq!(parse_number(&chars("-1"), 255), None);
    assert_eq!(parse_number(&chars("1 "), 255), None);
    assert_eq!(parse_number(&chars("4294967295"), 0xffff_ffff), Some(4294967295));
    assert_eq!(parse_number(&chars("99999999999999999999999"), 0xffff_ffff), None);
}

#[test]
fn byte_lists() {
    assert_eq!(read_u8_list(&chars("5,6,7"), ','), Some(vec![5, 6, 7]));
    assert_eq!(read_u8_list(&chars("5"), ','), Some(vec![5]));
    assert_eq!(read_u8_list(&chars("5,"), ','), None);
}

#[test]
fn strings_and_suffixes() {
    assert_eq!(string_from_chars(&chars("h\u{e9}llo")), "h\u{e9}llo");
    assert_eq!(latin1_chars(&[0x41, 0xE9]), vec!['A', '\u{e9}']);
    assert_eq!(strip_suffix_chars(&chars("map.txd"), &chars(".txd")).as_deref(), Some("map"));
    assert_eq!(strip_suffix_chars(&chars("txd"), &chars(".txd")), None);
    assert_eq!(texture_name_of("data/ui/title.txd").as_deref(), Some("title"));
    assert_eq!(texture_name_of("title.txd").as_deref(), Some("title"));
    assert_eq!(texture_name_of("data/ui/title.png"), None);
}
