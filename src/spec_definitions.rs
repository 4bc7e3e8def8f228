//! The element class names and property names that the hOCR format defines, and
//! the checks that accept them or a name with an extension prefix.
use vstd::prelude::*;
use crate::text::{str_eq, starts_with};

verus! {

/// `s` is one of the element class names that the hOCR format defines.
pub open spec fn spec_element_name(s: Seq<char>) -> bool {
    s == "ocr_page"@
        || s == "ocr_column"@
        || s == "ocr_carea"@
        || s == "ocr_line"@
        || s == "ocr_separator"@
        || s == "ocr_noise"@
        || s == "ocr_float"@
        || s == "ocr_textfloat"@
        || s == "ocr_textimage"@
        || s == "ocr_image"@
        || s == "ocr_linedrawing"@
        || s == "ocr_photo"@
        || s == "ocr_header"@
        || s == "ocr_footer"@
        || s == "ocr_pageno"@
        || s == "ocr_table"@
        || s == "ocr_document"@
        || s == "ocr_title"@
        || s == "ocr_author"@
        || s == "ocr_abstract"@
        || s == "ocr_part"@
        || s == "ocr_chapter"@
        || s == "ocr_section"@
        || s == "ocr_subsection"@
        || s == "ocr_subsubsection"@
        || s == "ocr_display"@
        || s == "ocr_blockquote"@
        || s == "ocr_par"@
        || s == "ocr_linear"@
        || s == "ocr_caption"@
        || s == "ocr_glyph"@
        || s == "ocr_glyphs"@
        || s == "ocr_dropcap"@
        || s == "ocr_math"@
        || s == "ocr_chem"@
        || s == "ocr_cinfo"@
        || s == "ocrx_block"@
        || s == "ocrx_line"@
        || s == "ocrx_word"@
}

/// `s` is one of the property names that the hOCR format defines.
pub open spec fn spec_property_name(s: Seq<char>) -> bool {
    s == "baseline"@
        || s == "bbox"@
        || s == "cflow"@
        || s == "cuts"@
        || s == "hardbreak"@
        || s == "image"@
        || s == "imagemd5"@
        || s == "lpageno"@
        || s == "ppageno"@
        || s == "nlp"@
        || s == "order"@
        || s == "poly"@
        || s == "scan_res"@
        || s == "textangle"@
        || s == "x_bboxes"@
        || s == "x_font"@
        || s == "x_fsize"@
        || s == "x_confs"@
        || s == "x_scanner"@
        || s == "x_source"@
        || s == "x_wconf"@
}

/// An element class name is accepted when the format defines it or when it
/// carries the engine-specific prefix `ocrx_`.
pub open spec fn known_element(s: Seq<char>) -> bool {
    spec_element_name(s) || "ocrx_"@.is_prefix_of(s)
}

/// A property name is accepted when the format defines it or when it carries
/// the extension prefix `x_`.
pub open spec fn known_property(s: Seq<char>) -> bool {
    spec_property_name(s) || "x_"@.is_prefix_of(s)
}

/// Whether `name` is an element class name that the format defines.
pub fn is_spec_element(name: &str) -> (r: bool)
    ensures
        r == spec_element_name(name@),
{
    str_eq(name, "ocr_page")
        || str_eq(name, "ocr_column")
        || str_eq(name, "ocr_carea")
        || str_eq(name, "ocr_line")
        || str_eq(name, "ocr_separator")
        || str_eq(name, "ocr_noise")
        || str_eq(name, "ocr_float")
        || str_eq(name, "ocr_textfloat")
        || str_eq(name, "ocr_textimage")
        || str_eq(name, "ocr_image")
        || str_eq(name, "ocr_linedrawing")
        || str_eq(name, "ocr_photo")
        || str_eq(name, "ocr_header")
        || str_eq(name, "ocr_footer")
        || str_eq(name, "ocr_pageno")
        || str_eq(name, "ocr_table")
        || str_eq(name, "ocr_document")
        || str_eq(name, "ocr_title")
        || str_eq(name, "ocr_author")
        || str_eq(name, "ocr_abstract")
        || str_eq(name, "ocr_part")
        || str_eq(name, "ocr_chapter")
        || str_eq(name, "ocr_section")
        || str_eq(name, "ocr_subsection")
        || str_eq(name, "ocr_subsubsection")
        || str_eq(name, "ocr_display")
        || str_eq(name, "ocr_blockquote")
        || str_eq(name, "ocr_par")
        || str_eq(name, "ocr_linear")
        || str_eq(name, "ocr_caption")
        || str_eq(name, "ocr_glyph")
        || str_eq(name, "ocr_glyphs")
        || str_eq(name, "ocr_dropcap")
        || str_eq(name, "ocr_math")
        || str_eq(name, "ocr_chem")
        || str_eq(name, "ocr_cinfo")
        || str_eq(name, "ocrx_block")
        || str_eq(name, "ocrx_line")
        || str_eq(name, "ocrx_word")
}

/// Whether `name` is a property name that the format defines.
pub fn is_spec_property(name: &str) -> (r: bool)
    ensures
        r == spec_property_name(name@),
{
    str_eq(name, "baseline")
        || str_eq(name, "bbox")
        || str_eq(name, "cflow")
        || str_eq(name, "cuts")
        || str_eq(name, "hardbreak")
        || str_eq(name, "image")
        || str_eq(name, "imagemd5")
        || str_eq(name, "lpageno")
        || str_eq(name, "ppageno")
        || str_eq(name, "nlp")
        || str_eq(name, "order")
        || str_eq(name, "poly")
        || str_eq(name, "scan_res")
        || str_eq(name, "textangle")
        || str_eq(name, "x_bboxes")
        || str_eq(name, "x_font")
        || str_eq(name, "x_fsize")
        || str_eq(name, "x_confs")
        || str_eq(name, "x_scanner")
        || str_eq(name, "x_source")
        || str_eq(name, "x_wconf")
}

/// Whether `name` is an accepted element class name.
pub fn is_known_element(name: &str) -> (r: bool)
    ensures
        r == known_element(name@),
{
    is_spec_element(name) || starts_with(name, "ocrx_")
}

/// Whether `name` is an accepted property name.
pub fn check_property_name(name: &str) -> (r: bool)
    ensures
        r == known_property(name@),
{
    is_spec_property(name) || starts_with(name, "x_")
}

/// Any class name with the engine-specific prefix `ocrx_` is accepted,
/// whether or not the format defines it.
pub proof fn lemma_engine_prefix_accepted(name: Seq<char>)
    requires
        "ocrx_"@.is_prefix_of(name),
    ensures
        known_element(name),
{
}

/// Any property name with the extension prefix `x_` is accepted.
pub proof fn lemma_extension_prefix_accepted(name: Seq<char>)
    requires
        "x_"@.is_prefix_of(name),
    ensures
        known_property(name),
{
}

} // verus!
