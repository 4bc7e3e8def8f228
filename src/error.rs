//! The errors that reading an hOCR document can end in.
use vstd::prelude::*;

verus! {

/// A position in the source text: a line and a column, both counted from 1.
#[derive(Clone, Copy, Debug, PartialEq, Eq, Structural)]
pub struct TextPos {
    pub row: u32,
    pub col: u32,
}

/// The ways in which an hOCR document is rejected.
#[derive(Clone, Debug)]
pub enum HOCRParserError {
    /// An element's class is neither defined by the format nor prefixed `ocrx_`.
    UnknownElement(TextPos),
    /// A property name is neither defined by the format nor prefixed `x_`.
    UnknownProperty(TextPos),
    /// An element was to be built from a node that is not an element.
    NodeIsNotElement(TextPos),
    /// The document has no `<head>`.
    NoHeadElement,
    /// The document has no `<body>`.
    NoBodyElement,
    /// The metadata names no OCR system.
    NoOCRSystem,
    /// The metadata names no OCR capabilities.
    NoOCRCapabilities,
    /// The text is not well-formed XML; the parser's own message.
    XMLParseError(String),
}

} // verus!
