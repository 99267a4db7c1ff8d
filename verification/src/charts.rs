//! Charts: a placeholder element where a chart was found but not read.

use vstd::prelude::*;
use crate::model::{BBox, Element, ElementType, Provenance};
use crate::text::{decimal, decimal_chars, push_chars, push_str_chars, string_from_chars, to_owned_string};

verus! {

/// The text a chart placeholder carries.
pub open spec fn chart_placeholder_text() -> Seq<char> {
    "[Обнаружена диаграмма, извлечение метаданных пока ограничено]"@
}

/// The placeholder for a chart found on page `page_number` within `bbox`: a chart
/// element that says its metadata are not extracted yet.
pub fn create_chart_placeholder(page_number: usize, bbox: BBox) -> (e: Element)
    ensures
        e.element_id@ == "p"@ + decimal(page_number as nat) + "_chart_placeholder"@,
        e.element_type == ElementType::Chart,
        e.tag.is_some() && e.tag.unwrap()@ == "chart_placeholder"@,
        e.role.is_some() && e.role.unwrap()@ == "chart_placeholder"@,
        e.reading_order.is_none() && e.global_order.is_none(),
        e.bbox == Some(bbox),
        e.text.is_some() && e.text.unwrap()@ == chart_placeholder_text(),
        e.markdown.is_some() && e.markdown.unwrap()@.len() == 0,
        e.html.is_none(),
        e.normalized_text.is_some() && e.normalized_text.unwrap()@.len() == 0,
        e.raw.is_none(),
        e.provenance.method@ == "inferred"@,
        e.provenance.tool@ == "chart_placeholder"@,
        e.provenance.stage@ == "layout_detection"@,
        e.provenance.source_kind.is_none() && e.provenance.source_value.is_none(),
        e.confidence_permille == 990,
        e.warnings@.len() == 0,
        e.extra@.len() == 0,
{
    let mut id: Vec<char> = Vec::new();
    push_str_chars(&mut id, "p");
    let digits = decimal_chars(page_number as u64);
    push_chars(&mut id, digits.as_slice());
    push_str_chars(&mut id, "_chart_placeholder");
    Element {
        element_id: string_from_chars(id.as_slice()),
        element_type: ElementType::Chart,
        tag: Some(to_owned_string("chart_placeholder")),
        role: Some(to_owned_string("chart_placeholder")),
        reading_order: None,
        global_order: None,
        bbox: Some(bbox),
        text: Some(to_owned_string("[Обнаружена диаграмма, извлечение метаданных пока ограничено]")),
        markdown: Some(String::new()),
        html: None,
        normalized_text: Some(String::new()),
        raw: None,
        items: Vec::new(),
        exclude_from_chunks: false,
        table_linearized: Vec::new(),
        provenance: Provenance {
            method: to_owned_string("inferred"),
            tool: to_owned_string("chart_placeholder"),
            stage: to_owned_string("layout_detection"),
            source_kind: None,
            source_value: None,
        },
        confidence_permille: crate::extractors::default_confidence(),
        warnings: Vec::new(),
        extra: Vec::new(),
    }
}

} // verus!
