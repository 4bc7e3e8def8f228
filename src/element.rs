//! hOCR elements: the validated tree built from XML element nodes, as a view
//! that borrows from the nodes and as an owned copy.
use vstd::prelude::*;
use crate::error::HOCRParserError;
use crate::parsing::{parse_properties, properties_spec, properties_view, PropertyView};
use crate::spec_definitions::{check_property_name, is_known_element, known_element, known_property};
use crate::text::{blank, is_blank, views};
use crate::xml::{opt_string_view, opt_view, or_empty, XmlNode};

verus! {

/// What an hOCR element holds, borrowed or owned alike.
pub struct ElementModel {
    pub element_type: Seq<char>,
    pub properties: Seq<PropertyView>,
    pub lang: Option<Seq<char>>,
    pub text: Option<Seq<char>>,
    pub children: Seq<ElementModel>,
}

/// The direct text that an element keeps: none where it is absent or blank.
pub open spec fn text_spec(t: Option<Seq<char>>) -> Option<Seq<char>> {
    match t {
        Some(s) => if blank(s) {
            None
        } else {
            Some(s)
        },
        None => None,
    }
}

/// The result of building an element from node `n`: the node must be an
/// element, its class an accepted name and each of its property names an
/// accepted name; then its element children are built in order, and the first
/// of them that fails decides the error.
pub open spec fn build_spec(n: XmlNode) -> Result<ElementModel, HOCRParserError>
    decreases n,
{
    if !n.is_element {
        Err(HOCRParserError::NodeIsNotElement(n.position))
    } else {
        let class = or_empty(n.attr("class"@));
        let props = properties_spec(or_empty(n.attr("title"@)));
        if !known_element(class) {
            Err(HOCRParserError::UnknownElement(n.position))
        } else if exists|i: int| 0 <= i < props.len() && !known_property(#[trigger] props[i].0) {
            Err(HOCRParserError::UnknownProperty(n.position))
        } else {
            match build_list(n.children@) {
                Err(e) => Err(e),
                Ok(kids) => Ok(
                    ElementModel {
                        element_type: class,
                        properties: props,
                        lang: n.attr("lang"@),
                        text: text_spec(opt_string_view(n.text)),
                        children: kids,
                    },
                ),
            }
        }
    }
}

/// The result of building the element nodes among `kids`, in order; nodes that
/// are not elements are passed over.
pub open spec fn build_list(kids: Seq<XmlNode>) -> Result<Seq<ElementModel>, HOCRParserError>
    decreases kids,
{
    if kids.len() == 0 {
        Ok(seq![])
    } else if !kids[0].is_element {
        build_list(kids.drop_first())
    } else {
        match build_spec(kids[0]) {
            Err(e) => Err(e),
            Ok(m) => match build_list(kids.drop_first()) {
                Err(e) => Err(e),
                Ok(ms) => Ok(seq![m] + ms),
            },
        }
    }
}

/// `done` followed by what `r` built, or the error of `r`.
pub open spec fn prepend(done: Seq<ElementModel>, r: Result<Seq<ElementModel>, HOCRParserError>) -> Result<
    Seq<ElementModel>,
    HOCRParserError,
> {
    match r {
        Ok(ms) => Ok(done + ms),
        Err(e) => Err(e),
    }
}

/// An hOCR element whose text borrows from the XML nodes it was built from.
#[derive(Debug)]
pub struct ElementBorrowed<'a> {
    /// The node the element was built from.
    pub node: &'a XmlNode,
    pub element_type: &'a str,
    pub properties: Vec<(&'a str, Vec<&'a str>)>,
    pub lang: Option<&'a str>,
    pub text: Option<&'a str>,
    pub children: Vec<ElementBorrowed<'a>>,
}

/// What a list of borrowed elements holds.
pub open spec fn borrowed_models<'a>(v: Seq<ElementBorrowed<'a>>) -> Seq<ElementModel>
    decreases v,
{
    if v.len() == 0 {
        seq![]
    } else {
        seq![v[0].model()] + borrowed_models(v.drop_first())
    }
}

impl<'a> ElementBorrowed<'a> {
    /// What the element holds.
    pub open spec fn model(&self) -> ElementModel
        decreases self,
    {
        ElementModel {
            element_type: self.element_type@,
            properties: properties_view(self.properties@),
            lang: opt_view(self.lang),
            text: opt_view(self.text),
            children: borrowed_models(self.children@),
        }
    }

    /// Builds the element of node `n` and, recursively, of its element
    /// children.
    pub fn from_node(n: &'a XmlNode) -> (r: Result<ElementBorrowed<'a>, HOCRParserError>)
        ensures
            match r {
                Ok(e) => build_spec(*n) == Ok::<ElementModel, HOCRParserError>(e.model()) && e.node
                    == n,
                Err(err) => build_spec(*n) == Err::<ElementModel, HOCRParserError>(err),
            },
        decreases n,
    {
        if !n.is_element {
            return Err(HOCRParserError::NodeIsNotElement(n.position));
        }
        proof {
            reveal_strlit("");
        }
        let element_type = match n.attribute("class") {
            Some(c) => c,
            None => "",
        };
        assert(element_type@ == or_empty(n.attr("class"@)));
        if !is_known_element(element_type) {
            assert(build_spec(*n) == Err::<ElementModel, HOCRParserError>(
                HOCRParserError::UnknownElement(n.position),
            ));
            return Err(HOCRParserError::UnknownElement(n.position));
        }
        let title = match n.attribute("title") {
            Some(t) => t,
            None => "",
        };
        assert(title@ == or_empty(n.attr("title"@)));
        let properties = parse_properties(title);
        let ghost props = properties_view(properties@);
        let mut i: usize = 0;
        while i < properties.len()
            invariant
                i <= properties@.len(),
                props == properties_view(properties@),
                props == properties_spec(or_empty(n.attr("title"@))),
                n.is_element,
                known_element(or_empty(n.attr("class"@))),
                forall|j: int| 0 <= j < i ==> known_property(#[trigger] props[j].0),
            decreases properties.len() - i,
        {
            if !check_property_name(properties[i].0) {
                assert(!known_property(props[i as int].0));
                assert(build_spec(*n) == Err::<ElementModel, HOCRParserError>(
                    HOCRParserError::UnknownProperty(n.position),
                ));
                return Err(HOCRParserError::UnknownProperty(n.position));
            }
            i += 1;
        }
        let lang = n.attribute("lang");
        let text = match n.text_content() {
            Some(t) => if is_blank(t) {
                None
            } else {
                Some(t)
            },
            None => None,
        };
        let children = match build_children(&n.children) {
            Ok(c) => c,
            Err(e) => {
                return Err(e);
            },
        };
        Ok(ElementBorrowed { node: n, element_type, properties, lang, text, children })
    }
}

/// Builds the elements of the element nodes among `kids`, in order; the first
/// that fails ends the work with its error.
pub(crate) fn build_children<'a>(kids: &'a Vec<XmlNode>) -> (r: Result<Vec<ElementBorrowed<'a>>, HOCRParserError>)
    ensures
        match r {
            Ok(v) => build_list(kids@) == Ok::<Seq<ElementModel>, HOCRParserError>(
                borrowed_models(v@),
            ),
            Err(err) => build_list(kids@) == Err::<Seq<ElementModel>, HOCRParserError>(err),
        },
    decreases kids,
{
    let mut acc: Vec<ElementBorrowed<'a>> = Vec::new();
    let mut i: usize = 0;
    assert(kids@.skip(0) =~= kids@);
    assert(borrowed_models(acc@) + Seq::<ElementModel>::empty() =~= Seq::<ElementModel>::empty());
    while i < kids.len()
        invariant
            i <= kids@.len(),
            build_list(kids@) == prepend(borrowed_models(acc@), build_list(kids@.skip(i as int))),
        decreases kids.len() - i,
    {
        assert(kids@.skip(i as int)[0] == kids@[i as int]);
        assert(kids@.skip(i as int).drop_first() =~= kids@.skip(i + 1));
        if kids[i].is_element {
            match ElementBorrowed::from_node(&kids[i]) {
                Ok(e) => {
                    let ghost before = acc@;
                    acc.push(e);
                    proof {
                        lemma_borrowed_models_push(before, e);
                    }
                    assert(build_list(kids@) == prepend(
                        borrowed_models(acc@),
                        build_list(kids@.skip(i + 1)),
                    )) by {
                        match build_list(kids@.skip(i + 1)) {
                            Ok(ms) => {
                                assert(borrowed_models(before) + (seq![e.model()] + ms)
                                    =~= borrowed_models(acc@) + ms);
                            },
                            Err(_) => {},
                        }
                    }
                },
                Err(e) => {
                    return Err(e);
                },
            }
        }
        i += 1;
    }
    assert(kids@.skip(i as int) =~= Seq::<XmlNode>::empty());
    assert(borrowed_models(acc@) + Seq::<ElementModel>::empty() =~= borrowed_models(acc@));
    Ok(acc)
}

proof fn lemma_borrowed_models_push<'a>(v: Seq<ElementBorrowed<'a>>, e: ElementBorrowed<'a>)
    ensures
        borrowed_models(v.push(e)) == borrowed_models(v).push(e.model()),
    decreases v.len(),
{
    if v.len() == 0 {
        assert(v.push(e).drop_first() =~= Seq::<ElementBorrowed<'a>>::empty());
        assert(borrowed_models(v.push(e).drop_first()) == Seq::<ElementModel>::empty());
        assert(v.push(e)[0] == e);
        assert(borrowed_models(v.push(e)) =~= seq![e.model()]);
    } else {
        assert(v.push(e).drop_first() =~= v.drop_first().push(e));
        lemma_borrowed_models_push(v.drop_first(), e);
        assert(borrowed_models(v.push(e)) =~= borrowed_models(v).push(e.model()));
    }
}

/// What a list of owned strings holds.
pub open spec fn string_views(v: Seq<String>) -> Seq<Seq<char>> {
    v.map_values(|x: String| x@)
}

/// What an owned property holds.
pub open spec fn owned_property_view(p: (String, Vec<String>)) -> PropertyView {
    (p.0@, string_views(p.1@))
}

/// What a list of owned properties holds.
pub open spec fn owned_properties_view(v: Seq<(String, Vec<String>)>) -> Seq<PropertyView> {
    v.map_values(|p: (String, Vec<String>)| owned_property_view(p))
}

/// An hOCR element that owns all of its text.
#[derive(Debug)]
pub struct Element {
    pub element_type: String,
    pub properties: Vec<(String, Vec<String>)>,
    pub lang: Option<String>,
    pub text: Option<String>,
    pub children: Vec<Element>,
}

/// What a list of owned elements holds.
pub open spec fn owned_models(v: Seq<Element>) -> Seq<ElementModel>
    decreases v,
{
    if v.len() == 0 {
        seq![]
    } else {
        seq![v[0].model()] + owned_models(v.drop_first())
    }
}

pub proof fn lemma_owned_models_push(v: Seq<Element>, e: Element)
    ensures
        owned_models(v.push(e)) == owned_models(v).push(e.model()),
    decreases v.len(),
{
    if v.len() == 0 {
        assert(v.push(e).drop_first() =~= Seq::<Element>::empty());
        assert(owned_models(v.push(e).drop_first()) == Seq::<ElementModel>::empty());
        assert(v.push(e)[0] == e);
        assert(owned_models(v.push(e)) =~= seq![e.model()]);
    } else {
        assert(v.push(e).drop_first() =~= v.drop_first().push(e));
        lemma_owned_models_push(v.drop_first(), e);
        assert(owned_models(v.push(e)) =~= owned_models(v).push(e.model()));
    }
}

pub proof fn lemma_borrowed_models_index<'a>(v: Seq<ElementBorrowed<'a>>, i: int)
    requires
        0 <= i < v.len(),
    ensures
        borrowed_models(v).len() == v.len(),
        borrowed_models(v)[i] == v[i].model(),
    decreases v.len(),
{
    if i > 0 {
        lemma_borrowed_models_index(v.drop_first(), i - 1);
    } else {
        lemma_borrowed_models_len(v.drop_first());
    }
}

pub proof fn lemma_borrowed_models_len<'a>(v: Seq<ElementBorrowed<'a>>)
    ensures
        borrowed_models(v).len() == v.len(),
    decreases v.len(),
{
    if v.len() > 0 {
        lemma_borrowed_models_len(v.drop_first());
    }
}

/// Copies each string slice into an owned string.
pub(crate) fn copy_strs(v: &Vec<&str>) -> (r: Vec<String>)
    ensures
        string_views(r@) == views(v@),
{
    let mut acc: Vec<String> = Vec::new();
    let mut i: usize = 0;
    while i < v.len()
        invariant
            i <= v@.len(),
            string_views(acc@) == views(v@).take(i as int),
        decreases v.len() - i,
    {
        let s = v[i].to_owned();
        let ghost before = acc@;
        acc.push(s);
        assert(string_views(acc@) =~= string_views(before).push(s@));
        i += 1;
        assert(string_views(acc@) =~= views(v@).take(i as int));
    }
    assert(views(v@).take(i as int) =~= views(v@));
    acc
}

/// Copies an optional string slice.
fn copy_opt(o: Option<&str>) -> (r: Option<String>)
    ensures
        opt_string_view(r) == opt_view(o),
{
    match o {
        Some(s) => Some(s.to_owned()),
        None => None,
    }
}

impl Element {
    /// What the element holds.
    pub open spec fn model(&self) -> ElementModel
        decreases self,
    {
        ElementModel {
            element_type: self.element_type@,
            properties: owned_properties_view(self.properties@),
            lang: opt_string_view(self.lang),
            text: opt_string_view(self.text),
            children: owned_models(self.children@),
        }
    }

    /// Copies a borrowed element, and its subtree, into one that owns its text.
    pub fn from_element_borrowed(e: &ElementBorrowed) -> (r: Element)
        ensures
            r.model() == e.model(),
        decreases e,
    {
        let mut properties: Vec<(String, Vec<String>)> = Vec::new();
        let mut i: usize = 0;
        while i < e.properties.len()
            invariant
                i <= e.properties@.len(),
                owned_properties_view(properties@) == properties_view(e.properties@).take(i as int),
            decreases e.properties.len() - i,
        {
            let name = e.properties[i].0.to_owned();
            let values = copy_strs(&e.properties[i].1);
            let ghost before = properties@;
            properties.push((name, values));
            assert(owned_properties_view(properties@) =~= owned_properties_view(before).push(
                owned_property_view((name, values)),
            ));
            i += 1;
            assert(owned_properties_view(properties@) =~= properties_view(e.properties@).take(
                i as int,
            ));
        }
        assert(properties_view(e.properties@).take(i as int) =~= properties_view(e.properties@));
        let mut children: Vec<Element> = Vec::new();
        let mut k: usize = 0;
        while k < e.children.len()
            invariant
                k <= e.children@.len(),
                owned_models(children@) == borrowed_models(e.children@).take(k as int),
            decreases e.children.len() - k,
        {
            let c = Element::from_element_borrowed(&e.children[k]);
            let ghost before = children@;
            children.push(c);
            proof {
                lemma_owned_models_push(before, c);
                lemma_borrowed_models_index(e.children@, k as int);
            }
            k += 1;
            assert(owned_models(children@) =~= borrowed_models(e.children@).take(k as int));
        }
        proof {
            lemma_borrowed_models_len(e.children@);
        }
        assert(borrowed_models(e.children@).take(k as int) =~= borrowed_models(e.children@));
        Element {
            element_type: e.element_type.to_owned(),
            properties,
            lang: copy_opt(e.lang),
            text: copy_opt(e.text),
            children,
        }
    }

    /// Builds the element of node `n`, with its subtree, and copies it out.
    pub fn from_node(n: &XmlNode) -> (r: Result<Element, HOCRParserError>)
        ensures
            match r {
                Ok(e) => build_spec(*n) == Ok::<ElementModel, HOCRParserError>(e.model()),
                Err(err) => build_spec(*n) == Err::<ElementModel, HOCRParserError>(err),
            },
    {
        match ElementBorrowed::from_node(n) {
            Ok(e) => Ok(Element::from_element_borrowed(&e)),
            Err(err) => Err(err),
        }
    }
}

} // verus!
