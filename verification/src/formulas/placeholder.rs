//! The element that stands for a formula found but not yet recognised.

use vstd::prelude::*;
use crate::extractors::provenance;
use crate::model::{BBox, Diagnostic, Element, ElementType};
use crate::text::{decimal, decimal_string, push_str_chars, string_from_chars, to_owned_string};

verus! {

pub open spec fn formula_placeholder_text() -> Seq<char> {
    "[Формула обнаружена, распознавание еще не выполнено]"@
}

/// The placeholder element of the formula region `region_id` on a page.
pub fn create_formula_placeholder(
    page_number: u32,
    region_id: &str,
    bbox: BBox,
    confidence_permille: u32,
    source: &str,
) -> (e: Element)
    ensures
        e.element_id@ == "p"@ + decimal(page_number as nat) + "_formula_placeholder_"@ + region_id@,
        e.element_type == ElementType::Formula,
        e.tag.is_some() && e.tag.unwrap()@ == "formula_placeholder"@,
        e.role.is_some() && e.role.unwrap()@ == "formula_placeholder"@,
        e.reading_order.is_none(),
        e.global_order.is_none(),
        e.bbox == Some(bbox),
        e.text.is_some() && e.text.unwrap()@ == formula_placeholder_text(),
        e.markdown.is_some() && e.markdown.unwrap()@ == formula_placeholder_text(),
        e.normalized_text.is_some() && e.normalized_text.unwrap()@ == formula_placeholder_text(),
        e.html.is_none(),
        e.raw.is_none(),
        e.provenance.method@ == "inferred"@,
        e.provenance.tool@ == source@,
        e.provenance.stage@ == "formula_detection"@,
        e.provenance.source_kind.is_some() && e.provenance.source_kind.unwrap()@ == "region"@,
        e.provenance.source_value.is_some() && e.provenance.source_value.unwrap()@ == region_id@,
        e.confidence_permille == confidence_permille,
        e.warnings@.len() == 1,
        e.warnings@[0].code@ == "FORMULA_PLACEHOLDER_CREATED"@,
        e.warnings@[0].severity@ == "warning"@,
        e.warnings@[0].scope@ == "element"@,
        e.warnings@[0].page_number == Some(page_number),
        e.warnings@[0].recoverable,
        e.extra@.len() == 2,
        e.extra@[0].0@ == "format"@ && e.extra@[0].1@ == "unknown"@,
        e.extra@[1].0@ == "detected_region_id"@ && e.extra@[1].1@ == region_id@,
{
    let text = "[Формула обнаружена, распознавание еще не выполнено]";
    let mut id: Vec<char> = Vec::new();
    push_str_chars(&mut id, "p");
    push_str_chars(&mut id, decimal_string(page_number as u64).as_str());
    push_str_chars(&mut id, "_formula_placeholder_");
    push_str_chars(&mut id, region_id);
    let mut prov = provenance(source, "formula_detection", "region", region_id);
    prov.method = to_owned_string("inferred");
    let mut warnings: Vec<Diagnostic> = Vec::new();
    warnings.push(
        Diagnostic {
            code: to_owned_string("FORMULA_PLACEHOLDER_CREATED"),
            severity: to_owned_string("warning"),
            scope: to_owned_string("element"),
            page_number: Some(page_number),
            element_id: None,
            message: to_owned_string("Формула обнаружена, но распознавание пока не выполнено."),
            recoverable: true,
            extra: Vec::new(),
        },
    );
    let mut extra: Vec<(String, String)> = Vec::new();
    extra.push((to_owned_string("format"), to_owned_string("unknown")));
    extra.push((to_owned_string("detected_region_id"), to_owned_string(region_id)));
    Element {
        element_id: string_from_chars(id.as_slice()),
        element_type: ElementType::Formula,
        tag: Some(to_owned_string("formula_placeholder")),
        role: Some(to_owned_string("formula_placeholder")),
        reading_order: None,
        global_order: None,
        bbox: Some(bbox),
        text: Some(to_owned_string(text)),
        markdown: Some(to_owned_string(text)),
        html: None,
        normalized_text: Some(to_owned_string(text)),
        raw: None,
        items: Vec::new(),
        exclude_from_chunks: false,
        table_linearized: Vec::new(),
        provenance: prov,
        confidence_permille,
        warnings,
        extra,
    }
}

} // verus!
