//! hOCR documents: the metadata of `<head>` and the element forest of `<body>`,
//! as a view that borrows from the XML nodes and as an owned copy.
use vstd::prelude::*;
use crate::element::{
    borrowed_models, build_children, build_list, copy_strs, lemma_borrowed_models_index,
    lemma_borrowed_models_len, lemma_owned_models_push, owned_models, string_views, Element,
    ElementBorrowed, ElementModel,
};
use crate::error::HOCRParserError;
use crate::text::{split_words, str_eq, views, words};
use crate::xml::{opt_view, XmlNode};

verus! {

/// What an hOCR document holds, borrowed or owned alike.
pub struct DocumentModel {
    pub system: Seq<char>,
    pub capabilities: Seq<Seq<char>>,
    pub number_of_pages: Option<u32>,
    pub langs: Option<Seq<Seq<char>>>,
    pub scripts: Option<Seq<Seq<char>>>,
    pub elements: Seq<ElementModel>,
}

/// The first node among `kids` whose tag is `name`.
pub open spec fn find_tag(kids: Seq<XmlNode>, name: Seq<char>) -> Option<XmlNode>
    decreases kids.len(),
{
    if kids.len() == 0 {
        None
    } else if kids[0].tag_name@ == name {
        Some(kids[0])
    } else {
        find_tag(kids.drop_first(), name)
    }
}

/// The (name, content) pairs of the `<meta>` nodes among `kids` that carry
/// both attributes, in document order.
pub open spec fn meta_entries(kids: Seq<XmlNode>) -> Seq<(Seq<char>, Seq<char>)>
    decreases kids.len(),
{
    if kids.len() == 0 {
        seq![]
    } else {
        let p = meta_entries(kids.drop_last());
        let k = kids.last();
        match (k.attr("name"@), k.attr("content"@)) {
            (Some(name), Some(content)) => if k.tag_name@ == "meta"@ {
                p.push((name, content))
            } else {
                p
            },
            _ => p,
        }
    }
}

/// The content of the first entry named `key`.
pub open spec fn meta_lookup(m: Seq<(Seq<char>, Seq<char>)>, key: Seq<char>) -> Option<Seq<char>>
    decreases m.len(),
{
    if m.len() == 0 {
        None
    } else if m[0].0 == key {
        Some(m[0].1)
    } else {
        meta_lookup(m.drop_first(), key)
    }
}

/// The value of a decimal numeral: ASCII digits, most significant first.
pub open spec fn digits_value(s: Seq<char>) -> int
    decreases s.len(),
{
    if s.len() == 0 {
        0
    } else {
        digits_value(s.drop_last()) * 10 + (s.last() as u32 - 0x30)
    }
}

/// Every character of `s` is an ASCII digit.
pub open spec fn all_digits(s: Seq<char>) -> bool {
    forall|j: int| 0 <= j < s.len() ==> 0x30 <= (#[trigger] s[j]) as u32 && (s[j] as u32) <= 0x39
}

/// The unsigned 32-bit number that `s` writes: an optional `+` and then one or
/// more ASCII digits whose value fits.
pub open spec fn parse_u32_spec(s: Seq<char>) -> Option<u32> {
    let d = if s.len() > 0 && s[0] == '+' {
        s.drop_first()
    } else {
        s
    };
    if d.len() > 0 && all_digits(d) && digits_value(d) <= u32::MAX {
        Some(digits_value(d) as u32)
    } else {
        None
    }
}

/// The words of an optional text.
pub open spec fn opt_words(o: Option<Seq<char>>) -> Option<Seq<Seq<char>>> {
    match o {
        Some(s) => Some(words(s)),
        None => None,
    }
}

/// The result of reading a document whose root element is `root`: `<head>`
/// must be there with the OCR system and capabilities in its metadata, then
/// `<body>`, whose element children must all build.
pub open spec fn document_spec(root: XmlNode) -> Result<DocumentModel, HOCRParserError> {
    match find_tag(root.children@, "head"@) {
        None => Err(HOCRParserError::NoHeadElement),
        Some(head) => {
            let m = meta_entries(head.children@);
            match meta_lookup(m, "ocr-system"@) {
                None => Err(HOCRParserError::NoOCRSystem),
                Some(system) => match meta_lookup(m, "ocr-capabilities"@) {
                    None => Err(HOCRParserError::NoOCRCapabilities),
                    Some(caps) => match find_tag(root.children@, "body"@) {
                        None => Err(HOCRParserError::NoBodyElement),
                        Some(body) => match build_list(body.children@) {
                            Err(e) => Err(e),
                            Ok(elements) => Ok(
                                DocumentModel {
                                    system,
                                    capabilities: words(caps),
                                    number_of_pages: match meta_lookup(
                                        m,
                                        "ocr-number-of-pages"@,
                                    ) {
                                        Some(p) => parse_u32_spec(p),
                                        None => None,
                                    },
                                    langs: opt_words(meta_lookup(m, "ocr-langs"@)),
                                    scripts: opt_words(meta_lookup(m, "scripts"@)),
                                    elements,
                                },
                            ),
                        },
                    },
                },
            }
        },
    }
}

/// What a list of slice pairs holds.
pub open spec fn pair_views(v: Seq<(&str, &str)>) -> Seq<(Seq<char>, Seq<char>)> {
    v.map_values(|p: (&str, &str)| (p.0@, p.1@))
}

/// What an optional list of slices holds.
pub open spec fn opt_views(o: Option<Vec<&str>>) -> Option<Seq<Seq<char>>> {
    match o {
        Some(v) => Some(views(v@)),
        None => None,
    }
}

/// What an optional list of strings holds.
pub open spec fn opt_string_views(o: Option<Vec<String>>) -> Option<Seq<Seq<char>>> {
    match o {
        Some(v) => Some(string_views(v@)),
        None => None,
    }
}

/// Relies on `<u32 as FromStr>::from_str`: it accepts an optional `+` followed
/// by one or more ASCII digits whose value fits in a `u32`, and nothing else.
#[verifier::external_body]
fn parse_u32(s: &str) -> (r: Option<u32>)
    ensures
        r == parse_u32_spec(s@),
{
    s.parse::<u32>().ok()
}

/// The first node among `kids` whose tag is `name`.
fn find_child<'a>(kids: &'a Vec<XmlNode>, name: &str) -> (r: Option<&'a XmlNode>)
    ensures
        match r {
            Some(x) => find_tag(kids@, name@) == Some(*x),
            None => find_tag(kids@, name@) is None,
        },
{
    let mut i: usize = 0;
    assert(kids@.skip(0) =~= kids@);
    while i < kids.len()
        invariant
            i <= kids@.len(),
            find_tag(kids@.skip(i as int), name@) == find_tag(kids@, name@),
        decreases kids.len() - i,
    {
        assert(kids@.skip(i as int)[0] == kids@[i as int]);
        assert(kids@.skip(i as int).drop_first() =~= kids@.skip(i + 1));
        if str_eq(kids[i].tag_name.as_str(), name) {
            return Some(&kids[i]);
        }
        i += 1;
    }
    None
}

/// The (name, content) pairs of the `<meta>` children of `head`.
fn collect_metadata<'a>(head: &'a XmlNode) -> (r: Vec<(&'a str, &'a str)>)
    ensures
        pair_views(r@) == meta_entries(head.children@),
{
    let kids = &head.children;
    let mut acc: Vec<(&'a str, &'a str)> = Vec::new();
    let mut i: usize = 0;
    assert(kids@.take(0) =~= Seq::<XmlNode>::empty());
    assert(pair_views(acc@) =~= Seq::<(Seq<char>, Seq<char>)>::empty());
    while i < kids.len()
        invariant
            kids == &head.children,
            i <= kids@.len(),
            pair_views(acc@) == meta_entries(kids@.take(i as int)),
        decreases kids.len() - i,
    {
        assert(kids@.take(i + 1).drop_last() =~= kids@.take(i as int));
        assert(kids@.take(i + 1).last() == kids@[i as int]);
        let k = &kids[i];
        let name = k.attribute("name");
        let content = k.attribute("content");
        if let (Some(nm), Some(ct)) = (name, content) {
            if str_eq(k.tag_name.as_str(), "meta") {
                let ghost before = acc@;
                acc.push((nm, ct));
                assert(pair_views(acc@) =~= pair_views(before).push((nm@, ct@)));
            }
        }
        i += 1;
    }
    assert(kids@.take(i as int) =~= kids@);
    acc
}

/// The content of the first metadata entry named `key`.
fn lookup<'a>(m: &Vec<(&'a str, &'a str)>, key: &str) -> (r: Option<&'a str>)
    ensures
        opt_view(r) == meta_lookup(pair_views(m@), key@),
{
    let ghost pv = pair_views(m@);
    let mut i: usize = 0;
    assert(pv.skip(0) =~= pv);
    while i < m.len()
        invariant
            pv == pair_views(m@),
            i <= m@.len(),
            meta_lookup(pv.skip(i as int), key@) == meta_lookup(pv, key@),
        decreases m.len() - i,
    {
        assert(pv.skip(i as int)[0] == pv[i as int]);
        assert(pv.skip(i as int).drop_first() =~= pv.skip(i + 1));
        if str_eq(m[i].0, key) {
            return Some(m[i].1);
        }
        i += 1;
    }
    None
}

/// The words of an optional text.
fn opt_split_words<'a>(o: Option<&'a str>) -> (r: Option<Vec<&'a str>>)
    ensures
        opt_views(r) == opt_words(opt_view(o)),
{
    match o {
        Some(s) => Some(split_words(s)),
        None => None,
    }
}

/// An hOCR document whose text borrows from the XML nodes it was read from.
#[derive(Debug)]
pub struct HOCRBorrowed<'a> {
    /// The root element the document was read from.
    pub document: &'a XmlNode,
    pub system: &'a str,
    pub capabilities: Vec<&'a str>,
    pub number_of_pages: Option<u32>,
    pub langs: Option<Vec<&'a str>>,
    pub scripts: Option<Vec<&'a str>>,
    pub elements: Vec<ElementBorrowed<'a>>,
}

impl<'a> HOCRBorrowed<'a> {
    /// What the document holds.
    pub open spec fn model(&self) -> DocumentModel {
        DocumentModel {
            system: self.system@,
            capabilities: views(self.capabilities@),
            number_of_pages: self.number_of_pages,
            langs: opt_views(self.langs),
            scripts: opt_views(self.scripts),
            elements: borrowed_models(self.elements@),
        }
    }

    /// Reads the document whose root element is `document`.
    pub fn new_from_document(document: &'a XmlNode) -> (r: Result<HOCRBorrowed<'a>, HOCRParserError>)
        ensures
            match r {
                Ok(h) => document_spec(*document) == Ok::<DocumentModel, HOCRParserError>(
                    h.model(),
                ) && h.document == document,
                Err(err) => document_spec(*document) == Err::<DocumentModel, HOCRParserError>(
                    err,
                ),
            },
    {
        let head = match find_child(&document.children, "head") {
            Some(h) => h,
            None => {
                return Err(HOCRParserError::NoHeadElement);
            },
        };
        let metadata = collect_metadata(head);
        let system = match lookup(&metadata, "ocr-system") {
            Some(s) => s,
            None => {
                return Err(HOCRParserError::NoOCRSystem);
            },
        };
        let capabilities = match lookup(&metadata, "ocr-capabilities") {
            Some(c) => split_words(c),
            None => {
                return Err(HOCRParserError::NoOCRCapabilities);
            },
        };
        let number_of_pages = match lookup(&metadata, "ocr-number-of-pages") {
            Some(p) => parse_u32(p),
            None => None,
        };
        let langs = opt_split_words(lookup(&metadata, "ocr-langs"));
        let scripts = opt_split_words(lookup(&metadata, "scripts"));
        let body = match find_child(&document.children, "body") {
            Some(b) => b,
            None => {
                return Err(HOCRParserError::NoBodyElement);
            },
        };
        let elements = match build_children(&body.children) {
            Ok(els) => els,
            Err(e) => {
                return Err(e);
            },
        };
        Ok(HOCRBorrowed { document, system, capabilities, number_of_pages, langs, scripts, elements })
    }
}

/// Copies an optional list of slices.
fn copy_opt_strs(o: &Option<Vec<&str>>) -> (r: Option<Vec<String>>)
    ensures
        opt_string_views(r) == opt_views(*o),
{
    match o {
        Some(v) => Some(copy_strs(v)),
        None => None,
    }
}

/// An hOCR document that owns all of its text.
#[derive(Debug)]
pub struct HOCR {
    pub system: String,
    pub capabilities: Vec<String>,
    pub number_of_pages: Option<u32>,
    pub langs: Option<Vec<String>>,
    pub scripts: Option<Vec<String>>,
    pub elements: Vec<Element>,
}

impl HOCR {
    /// What the document holds.
    pub open spec fn model(&self) -> DocumentModel {
        DocumentModel {
            system: self.system@,
            capabilities: string_views(self.capabilities@),
            number_of_pages: self.number_of_pages,
            langs: opt_string_views(self.langs),
            scripts: opt_string_views(self.scripts),
            elements: owned_models(self.elements@),
        }
    }

    /// Copies a borrowed document into one that owns its text.
    pub fn from_hocr_borrowed(hocr: HOCRBorrowed) -> (r: HOCR)
        ensures
            r.model() == hocr.model(),
    {
        let mut elements: Vec<Element> = Vec::new();
        let mut k: usize = 0;
        while k < hocr.elements.len()
            invariant
                k <= hocr.elements@.len(),
                owned_models(elements@) == borrowed_models(hocr.elements@).take(k as int),
            decreases hocr.elements.len() - k,
        {
            let c = Element::from_element_borrowed(&hocr.elements[k]);
            let ghost before = elements@;
            elements.push(c);
            proof {
                lemma_owned_models_push(before, c);
                lemma_borrowed_models_index(hocr.elements@, k as int);
            }
            k += 1;
            assert(owned_models(elements@) =~= borrowed_models(hocr.elements@).take(k as int));
        }
        proof {
            lemma_borrowed_models_len(hocr.elements@);
        }
        assert(borrowed_models(hocr.elements@).take(k as int) =~= borrowed_models(hocr.elements@));
        HOCR {
            system: hocr.system.to_owned(),
            capabilities: copy_strs(&hocr.capabilities),
            number_of_pages: hocr.number_of_pages,
            langs: copy_opt_strs(&hocr.langs),
            scripts: copy_opt_strs(&hocr.scripts),
            elements,
        }
    }

    /// Reads the document whose root element is `root` into one that owns its
    /// text.
    pub fn from_document(root: &XmlNode) -> (r: Result<HOCR, HOCRParserError>)
        ensures
            match r {
                Ok(h) => document_spec(*root) == Ok::<DocumentModel, HOCRParserError>(h.model()),
                Err(err) => document_spec(*root) == Err::<DocumentModel, HOCRParserError>(err),
            },
    {
        match HOCRBorrowed::new_from_document(root) {
            Ok(h) => Ok(HOCR::from_hocr_borrowed(h)),
            Err(e) => Err(e),
        }
    }
}

} // verus!
