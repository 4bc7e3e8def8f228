use hocr_parser::text::{is_blank, is_whitespace, split_char, split_words, starts_with, str_eq};
use hocr_parser::{TextPos, XmlNode};

#[test]
fn split_on_a_character() {
    assert_eq!(split_char("a;b;;c", ';'), vec!["a", "b", "", "c"]);
    assert_eq!(split_char("", ';'), vec![""]);
    assert_eq!(split_char(";", ';'), vec!["", ""]);
}

#[test]
fn split_into_words() {
    assert_eq!(split_words("  ab\tc \n d  "), vec!["ab", "c", "d"]);
    assert!(split_words(" \u{2028} ").is_empty());
}

#[test]
fn whitespace_and_comparisons() {
    assert!(is_whitespace('\u{85}'));
    assert!(!is_whitespace('x'));
    assert!(is_blank(""));
    assert!(!is_blank(" x "));
    assert!(str_eq("héllo", "héllo"));
    assert!(!str_eq("ab", "abc"));
    assert!(starts_with("ocrx_word", "ocrx_"));
    assert!(!starts_with("ocr", "ocrx_"));
}

#[test]
fn first_attribute_of_a_name_wins() {
    let n = XmlNode {
        is_element: true,
        tag_name: "span".to_string(),
        attributes: vec![
            ("class".to_string(), "a".to_string()),
            ("class".to_string(), "b".to_string()),
        ],
        text: None,
        position: TextPos { row: 1, col: 1 },
        children: vec![],
    };
    assert_eq!(n.attribute("class"), Some("a"));
    assert_eq!(n.attribute("title"), None);
}
