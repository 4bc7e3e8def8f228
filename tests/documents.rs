use hocr_parser::{
    Element, ElementBorrowed, HOCRBorrowed, HOCRParserError, TextPos, XmlNode, HOCR,
};

fn pos(row: u32, col: u32) -> TextPos {
    TextPos { row, col }
}

fn node(tag: &str, attrs: &[(&str, &str)], text: Option<&str>, at: TextPos, children: Vec<XmlNode>) -> XmlNode {
    XmlNode {
        is_element: true,
        tag_name: tag.to_string(),
        attributes: attrs.iter().map(|(k, v)| (k.to_string(), v.to_string())).collect(),
        text: text.map(|t| t.to_string()),
        position: at,
        children,
    }
}

fn text_node(t: &str) -> XmlNode {
    XmlNode {
        is_element: false,
        tag_name: String::new(),
        attributes: vec![],
        text: Some(t.to_string()),
        position: pos(1, 1),
        children: vec![],
    }
}

fn meta(name: &str, content: &str) -> XmlNode {
    node("meta", &[("name", name), ("content", content)], None, pos(2, 1), vec![])
}

fn ocr(class: &str, title: &str, text: Option<&str>, at: TextPos, children: Vec<XmlNode>) -> XmlNode {
    node("div", &[("class", class), ("title", title)], text, at, children)
}

fn html(head: Option<Vec<XmlNode>>, body: Option<Vec<XmlNode>>) -> XmlNode {
    let mut kids = vec![];
    if let Some(h) = head {
        kids.push(node("head", &[], None, pos(1, 7), h));
    }
    kids.push(text_node("\n"));
    if let Some(b) = body {
        kids.push(node("body", &[], None, pos(3, 1), b));
    }
    node("html", &[], None, pos(1, 1), kids)
}

fn standard_head() -> Vec<XmlNode> {
    vec![meta("ocr-system", "testocr"), meta("ocr-capabilities", "ocr_page")]
}

fn minimal() -> XmlNode {
    let line = ocr("ocr_line", "bbox 0 0 10 10", Some("Hello"), pos(6, 1), vec![]);
    let area = ocr("ocr_carea", "", Some("\n   "), pos(5, 1), vec![text_node("\n   "), line]);
    let page = ocr("ocr_page", "image \"a b.png\"; bbox 0 0 100 100", None, pos(4, 1), vec![area]);
    html(Some(standard_head()), Some(vec![page]))
}

fn err_of(root: &XmlNode) -> HOCRParserError {
    match HOCR::from_document(root) {
        Err(e) => e,
        Ok(_) => panic!("document was accepted"),
    }
}

#[test]
fn minimal_document_end_to_end() {
    let root = minimal();
    let doc = HOCR::from_document(&root).unwrap();
    assert_eq!(doc.system, "testocr");
    assert_eq!(doc.capabilities, vec!["ocr_page".to_string()]);
    assert_eq!(doc.number_of_pages, None);
    assert_eq!(doc.langs, None);
    assert_eq!(doc.scripts, None);
    assert_eq!(doc.elements.len(), 1);
    let page = &doc.elements[0];
    assert_eq!(page.element_type, "ocr_page");
    assert_eq!(
        page.properties,
        vec![
            ("image".to_string(), vec!["a b.png".to_string()]),
            ("bbox".to_string(), vec!["0".to_string(), "0".to_string(), "100".to_string(), "100".to_string()]),
        ]
    );
    assert_eq!(page.children.len(), 1);
    let area = &page.children[0];
    assert_eq!(area.element_type, "ocr_carea");
    assert_eq!(area.text, None);
    assert_eq!(area.children.len(), 1);
    let line = &area.children[0];
    assert_eq!(line.element_type, "ocr_line");
    assert_eq!(line.text, Some("Hello".to_string()));
    assert!(line.children.is_empty());
}

#[test]
fn metadata_fields_are_read() {
    let head = vec![
        meta("ocr-system", "tesseract 5"),
        meta("ocr-system", "ignored"),
        meta("ocr-capabilities", " ocr_page  ocr_carea\tocr_line "),
        meta("ocr-number-of-pages", "12"),
        meta("ocr-langs", "eng deu"),
        meta("scripts", "Latn"),
    ];
    let root = html(Some(head), Some(vec![]));
    let doc = HOCR::from_document(&root).unwrap();
    assert_eq!(doc.system, "tesseract 5");
    assert_eq!(doc.capabilities, vec!["ocr_page", "ocr_carea", "ocr_line"]);
    assert_eq!(doc.number_of_pages, Some(12));
    assert_eq!(doc.langs, Some(vec!["eng".to_string(), "deu".to_string()]));
    assert_eq!(doc.scripts, Some(vec!["Latn".to_string()]));
    assert!(doc.elements.is_empty());
}

#[test]
fn page_count_forms() {
    let count = |v: &str| {
        let root = html(Some(vec![meta("ocr-system", "s"), meta("ocr-capabilities", "c"), meta("ocr-number-of-pages", v)]), Some(vec![]));
        HOCR::from_document(&root).unwrap().number_of_pages
    };
    assert_eq!(count("+7"), Some(7));
    assert_eq!(count("007"), Some(7));
    assert_eq!(count("4294967295"), Some(4294967295));
    assert_eq!(count("4294967296"), None);
    assert_eq!(count("abc"), None);
    assert_eq!(count(" 3"), None);
    assert_eq!(count("-1"), None);
    assert_eq!(count("+"), None);
    assert_eq!(count(""), None);
}

#[test]
fn missing_head() {
    let root = html(None, Some(vec![]));
    assert!(matches!(err_of(&root), HOCRParserError::NoHeadElement));
}

#[test]
fn missing_ocr_system() {
    let root = html(Some(vec![meta("ocr-capabilities", "ocr_page")]), Some(vec![]));
    assert!(matches!(err_of(&root), HOCRParserError::NoOCRSystem));
}

#[test]
fn missing_ocr_capabilities() {
    let root = html(Some(vec![meta("ocr-system", "x")]), Some(vec![]));
    assert!(matches!(err_of(&root), HOCRParserError::NoOCRCapabilities));
}

#[test]
fn meta_without_content_is_ignored() {
    let head = vec![
        node("meta", &[("name", "ocr-system")], None, pos(2, 1), vec![]),
        meta("ocr-capabilities", "ocr_page"),
    ];
    let root = html(Some(head), Some(vec![]));
    assert!(matches!(err_of(&root), HOCRParserError::NoOCRSystem));
}

#[test]
fn missing_body() {
    let root = html(Some(standard_head()), None);
    assert!(matches!(err_of(&root), HOCRParserError::NoBodyElement));
}

#[test]
fn unknown_element_class() {
    let root = html(Some(standard_head()), Some(vec![ocr("ocr_foobar", "", None, pos(9, 4), vec![])]));
    match err_of(&root) {
        HOCRParserError::UnknownElement(p) => assert_eq!(p, pos(9, 4)),
        e => panic!("unexpected error {:?}", e),
    }
}

#[test]
fn engine_specific_class_is_accepted() {
    let root = html(Some(standard_head()), Some(vec![ocr("ocrx_anything", "", Some("w"), pos(9, 4), vec![])]));
    let doc = HOCR::from_document(&root).unwrap();
    assert_eq!(doc.elements[0].element_type, "ocrx_anything");
    assert_eq!(doc.elements[0].text, Some("w".to_string()));
}

#[test]
fn missing_class_is_rejected() {
    let n = node("div", &[], None, pos(3, 3), vec![]);
    assert!(matches!(Element::from_node(&n), Err(HOCRParserError::UnknownElement(_))));
}

#[test]
fn unknown_property_name() {
    let root = html(Some(standard_head()), Some(vec![ocr("ocr_page", "bbox 0 0 1 1; foobar 3", None, pos(7, 2), vec![])]));
    match err_of(&root) {
        HOCRParserError::UnknownProperty(p) => assert_eq!(p, pos(7, 2)),
        e => panic!("unexpected error {:?}", e),
    }
}

#[test]
fn extension_property_is_accepted() {
    let root = html(Some(standard_head()), Some(vec![ocr("ocr_page", "x_anything 1; x_wconf 95", None, pos(7, 2), vec![])]));
    let doc = HOCR::from_document(&root).unwrap();
    assert_eq!(doc.elements[0].properties[0].0, "x_anything");
}

#[test]
fn node_that_is_not_an_element() {
    let mut t = text_node("hi");
    t.position = pos(4, 5);
    match ElementBorrowed::from_node(&t) {
        Err(HOCRParserError::NodeIsNotElement(p)) => assert_eq!(p, pos(4, 5)),
        _ => panic!("expected an error"),
    }
}

#[test]
fn first_failing_node_in_preorder_decides() {
    let bad_deep = ocr("ocr_line", "foobar", None, pos(5, 1), vec![]);
    let first = ocr("ocr_carea", "", None, pos(4, 1), vec![bad_deep]);
    let bad_second = ocr("nope", "", None, pos(6, 1), vec![]);
    let page = ocr("ocr_page", "", None, pos(3, 1), vec![first, bad_second]);
    let root = html(Some(standard_head()), Some(vec![page]));
    match err_of(&root) {
        HOCRParserError::UnknownProperty(p) => assert_eq!(p, pos(5, 1)),
        e => panic!("unexpected error {:?}", e),
    }
    let bad_parent = ocr("ocr_page", "foobar", None, pos(2, 1), vec![ocr("nope", "", None, pos(3, 1), vec![])]);
    let root = html(Some(standard_head()), Some(vec![bad_parent]));
    match err_of(&root) {
        HOCRParserError::UnknownProperty(p) => assert_eq!(p, pos(2, 1)),
        e => panic!("unexpected error {:?}", e),
    }
}

#[test]
fn owned_copy_equals_borrowed() {
    let root = minimal();
    let b = HOCRBorrowed::new_from_document(&root).unwrap();
    assert_eq!(b.system, "testocr");
    let page_b = &b.elements[0];
    let page_o = Element::from_element_borrowed(page_b);
    assert_eq!(page_o.element_type, page_b.element_type);
    assert_eq!(page_o.properties.len(), page_b.properties.len());
    for (po, pb) in page_o.properties.iter().zip(page_b.properties.iter()) {
        assert_eq!(po.0, pb.0);
        assert_eq!(po.1, pb.1);
    }
    assert_eq!(page_o.children[0].children[0].text.as_deref(), page_b.children[0].children[0].text);
    let o = HOCR::from_hocr_borrowed(b);
    assert_eq!(o.system, "testocr");
    assert_eq!(o.capabilities, vec!["ocr_page"]);
    assert_eq!(o.elements[0].children[0].children[0].text, Some("Hello".to_string()));
}

#[test]
fn lang_attribute_is_kept() {
    let n = node("span", &[("class", "ocrx_word"), ("lang", "de")], Some(" Wort "), pos(1, 1), vec![]);
    let e = Element::from_node(&n).unwrap();
    assert_eq!(e.lang, Some("de".to_string()));
    assert_eq!(e.text, Some(" Wort ".to_string()));
}

fn two_level_tree() -> XmlNode {
    let a1 = ocr("ocr_line", "", Some("a1"), pos(1, 1), vec![]);
    let b1 = ocr("ocr_line", "", Some("b1"), pos(1, 1), vec![]);
    let a = ocr("ocr_carea", "", Some("a"), pos(1, 1), vec![a1]);
    let b = ocr("ocr_carea", "", Some("b"), pos(1, 1), vec![b1]);
    let root = ocr("ocr_page", "", Some("r"), pos(1, 1), vec![a, b]);
    html(Some(standard_head()), Some(vec![root]))
}

#[test]
fn level_order_traversal() {
    let root = two_level_tree();
    let doc = HOCR::from_document(&root).unwrap();
    let mut it = doc.iter();
    let mut seen = vec![];
    while let Some(e) = it.next() {
        seen.push(e.text.clone().unwrap());
    }
    assert_eq!(seen, vec!["r", "a", "b", "a1", "b1"]);
    let mut d = doc.elements[0].descendants();
    let mut below = vec![];
    while let Some(e) = d.next() {
        below.push(e.text.clone().unwrap());
    }
    assert_eq!(below, vec!["a", "b", "a1", "b1"]);
    assert!(d.next().is_none());
}

#[test]
fn level_order_traversal_borrowed() {
    let root = two_level_tree();
    let doc = HOCRBorrowed::new_from_document(&root).unwrap();
    let mut it = doc.iter();
    let mut seen = vec![];
    while let Some(e) = it.next() {
        seen.push(e.text.unwrap());
    }
    assert_eq!(seen, vec!["r", "a", "b", "a1", "b1"]);
    let mut d = doc.elements[0].children[0].descendants();
    assert_eq!(d.next().map(|e| e.element_type), Some("ocr_line"));
    assert!(d.next().is_none());
}
