//! A node of a parsed XML document, held as plain values: what the hOCR layer
//! reads of the markup.
use vstd::prelude::*;
use crate::error::TextPos;
use crate::text::str_eq;

verus! {

/// An XML node: an element with its tag, attributes, direct text and children,
/// or another kind of node (text, comment, ...) with `is_element` false.
#[derive(Debug)]
pub struct XmlNode {
    pub is_element: bool,
    /// The local name of the tag; empty for a node that is not an element.
    pub tag_name: String,
    /// The attributes as (local name, value), in document order.
    pub attributes: Vec<(String, String)>,
    /// The text of the node's first child, when that child is a text node.
    pub text: Option<String>,
    /// Where the node starts in the source text.
    pub position: TextPos,
    pub children: Vec<XmlNode>,
}

/// What an optional string slice holds.
pub open spec fn opt_view(o: Option<&str>) -> Option<Seq<char>> {
    match o {
        Some(s) => Some(s@),
        None => None,
    }
}

/// What an optional string holds.
pub open spec fn opt_string_view(o: Option<String>) -> Option<Seq<char>> {
    match o {
        Some(s) => Some(s@),
        None => None,
    }
}

/// The value of the first attribute named `name`, if any.
pub open spec fn attr_spec(attrs: Seq<(String, String)>, name: Seq<char>) -> Option<Seq<char>>
    decreases attrs.len(),
{
    if attrs.len() == 0 {
        None
    } else if attrs[0].0@ == name {
        Some(attrs[0].1@)
    } else {
        attr_spec(attrs.drop_first(), name)
    }
}

/// The characters of an optional value, empty when it is absent.
pub open spec fn or_empty(o: Option<Seq<char>>) -> Seq<char> {
    match o {
        Some(s) => s,
        None => Seq::empty(),
    }
}

impl XmlNode {
    /// The value of this node's attribute `name`, if it has one.
    pub open spec fn attr(&self, name: Seq<char>) -> Option<Seq<char>> {
        attr_spec(self.attributes@, name)
    }

    /// Looks up the attribute `name`.
    pub fn attribute(&self, name: &str) -> (r: Option<&str>)
        ensures
            opt_view(r) == self.attr(name@),
    {
        let ghost attrs = self.attributes@;
        let mut i: usize = 0;
        assert(attrs.skip(0) =~= attrs);
        while i < self.attributes.len()
            invariant
                attrs == self.attributes@,
                i <= attrs.len(),
                attr_spec(attrs.skip(i as int), name@) == attr_spec(attrs, name@),
            decreases attrs.len() - i,
        {
            assert(attrs.skip(i as int)[0] == attrs[i as int]);
            assert(attrs.skip(i as int).drop_first() =~= attrs.skip(i + 1));
            if str_eq(self.attributes[i].0.as_str(), name) {
                return Some(self.attributes[i].1.as_str());
            }
            i += 1;
        }
        None
    }

    /// The node's direct text, if any.
    pub fn text_content(&self) -> (r: Option<&str>)
        ensures
            opt_view(r) == opt_string_view(self.text),
    {
        match &self.text {
            Some(t) => Some(t.as_str()),
            None => None,
        }
    }
}

} // verus!
