//! A parser for hOCR documents: XHTML whose elements carry OCR layout results,
//! with their metadata in a `title` attribute.
//!
//! The markup itself is read by an XML parser into [`XmlNode`]s; this crate
//! validates element class names and property names, parses the `title`
//! grammar, reads the document metadata, builds the element tree (borrowing
//! from the nodes, or owned) and walks it in level order.

pub mod element;
pub mod error;
pub mod hocr;
pub mod iter;
pub mod parsing;
pub mod spec_definitions;
pub mod text;
pub mod xml;

pub use element::{Element, ElementBorrowed};
pub use error::{HOCRParserError, TextPos};
pub use hocr::{HOCRBorrowed, HOCR};
pub use iter::{ElementsBorrowedIterator, ElementsIterator};
pub use xml::XmlNode;
