use hocr_parser::parsing;
use hocr_parser::spec_definitions::{check_property_name, is_known_element};

#[test]
fn parse_quoted_properties() {
    let property = "image \"Screenshot 2024-05-12 at 14.21.17.png\"; bbox 0 0 796 1314; ppageno 0; scan_res 144 144";
    let res = parsing::parse_properties(&property);
    println!("{:?}", res);
    let image_prop = res.iter().find(|(n, _)| *n == "image").unwrap();
    assert_eq!(image_prop.1, vec!["Screenshot 2024-05-12 at 14.21.17.png"]);
}

#[test]
fn parse_multiple_quoted_properties() {
    let property = r#"x_source abc def "/gfs/cc/clean/012345678911" "17" abc def "Screenshot 2024-05-12 at 14.21.17.png""#;
    let res = parsing::parse_properties(&property);
    println!("{:?}", res);
    let prop = res.iter().find(|(n, _)| *n == "x_source").unwrap();
    assert_eq!(
        prop.1,
        vec![
            "abc",
            "def",
            "/gfs/cc/clean/012345678911",
            "17",
            "abc",
            "def",
            "Screenshot 2024-05-12 at 14.21.17.png"
        ]
    );
}

#[test]
fn parse_empty_property() {
    let property = "";
    let res = parsing::parse_properties(&property);
    assert_eq!(res.len(), 0);
}

#[test]
fn parse_just_whitespace_property() {
    let property = "     \n  \t  \n  \t  \n";
    let res = parsing::parse_properties(&property);
    assert_eq!(res.len(), 0);
}

#[test]
fn image_and_bbox_clauses() {
    let res = parsing::parse_properties("image \"a b.png\"; bbox 0 0 1 1");
    assert_eq!(
        res,
        vec![("image", vec!["a b.png"]), ("bbox", vec!["0", "0", "1", "1"])]
    );
}

#[test]
fn quoted_and_unquoted_runs_interleave() {
    let res = parsing::parse_properties("x_font a \"b c\" d \"e\"f g");
    assert_eq!(res, vec![("x_font", vec!["a", "b c", "d", "e", "f", "g"])]);
}

#[test]
fn blank_quoted_span_gives_no_value() {
    let res = parsing::parse_properties("x_font a \"  \" b");
    assert_eq!(res, vec![("x_font", vec!["a", "b"])]);
}

#[test]
fn name_without_values_and_blank_clauses() {
    let res = parsing::parse_properties(" ; hardbreak ;;  nlp 1 2  ");
    assert_eq!(res, vec![("hardbreak", vec![]), ("nlp", vec!["1", "2"])]);
}

#[test]
fn repeated_names_are_kept_in_order() {
    let res = parsing::parse_properties("bbox 1 2; bbox 3");
    assert_eq!(res, vec![("bbox", vec!["1", "2"]), ("bbox", vec!["3"])]);
}

#[test]
fn unicode_whitespace_separates_values() {
    let res = parsing::parse_properties("bbox\u{3000}1\u{a0}2");
    assert_eq!(res, vec![("bbox", vec!["1", "2"])]);
}

#[test]
fn property_names_are_checked() {
    assert!(check_property_name("x_anything"));
    assert!(check_property_name("bbox"));
    assert!(check_property_name("x_wconf"));
    assert!(!check_property_name("foobar"));
    assert!(!check_property_name("Bbox"));
    assert!(!check_property_name(""));
    assert!(is_known_element("ocr_page"));
    assert!(is_known_element("ocrx_anything"));
    assert!(!is_known_element("ocr_foobar"));
    assert!(!is_known_element("ocr_separator_"));
    assert!(!is_known_element(""));
}
