//! Layout regions found on a page, and the placeholders made from them.

use vstd::prelude::*;
use crate::classifier::chars_eq;
use crate::extractors::provenance;
use crate::model::{BBox, Diagnostic, Element, ElementType};
use crate::text::{chars_of, decimal, decimal_string, lower_chars, lower_seq, push_str_chars, string_from_chars, to_owned_string};

verus! {

#[derive(Clone, Copy, Debug, PartialEq, Eq, Structural)]
pub enum LayoutRegionType {
    Text,
    Title,
    List,
    Table,
    Figure,
    Formula,
    Header,
    Footer,
    Footnote,
    Caption,
    Watermark,
    Sidebar,
    Code,
    Unknown,
}

/// The region type named by an ASCII-lowercased name; any other name is `Unknown`.
pub open spec fn region_type_named(s: Seq<char>) -> LayoutRegionType {
    if s == "text"@ {
        LayoutRegionType::Text
    } else if s == "title"@ {
        LayoutRegionType::Title
    } else if s == "list"@ {
        LayoutRegionType::List
    } else if s == "table"@ {
        LayoutRegionType::Table
    } else if s == "figure"@ {
        LayoutRegionType::Figure
    } else if s == "formula"@ {
        LayoutRegionType::Formula
    } else if s == "header"@ {
        LayoutRegionType::Header
    } else if s == "footer"@ {
        LayoutRegionType::Footer
    } else if s == "footnote"@ {
        LayoutRegionType::Footnote
    } else if s == "caption"@ {
        LayoutRegionType::Caption
    } else if s == "watermark"@ {
        LayoutRegionType::Watermark
    } else if s == "sidebar"@ {
        LayoutRegionType::Sidebar
    } else if s == "code"@ {
        LayoutRegionType::Code
    } else {
        LayoutRegionType::Unknown
    }
}

impl LayoutRegionType {
    /// The machine name of the region type.
    pub open spec fn name(self) -> Seq<char> {
        match self {
            LayoutRegionType::Text => "text"@,
            LayoutRegionType::Title => "title"@,
            LayoutRegionType::List => "list"@,
            LayoutRegionType::Table => "table"@,
            LayoutRegionType::Figure => "figure"@,
            LayoutRegionType::Formula => "formula"@,
            LayoutRegionType::Header => "header"@,
            LayoutRegionType::Footer => "footer"@,
            LayoutRegionType::Footnote => "footnote"@,
            LayoutRegionType::Caption => "caption"@,
            LayoutRegionType::Watermark => "watermark"@,
            LayoutRegionType::Sidebar => "sidebar"@,
            LayoutRegionType::Code => "code"@,
            LayoutRegionType::Unknown => "unknown"@,
        }
    }

    /// Reads a region type by its name, ignoring ASCII case.
    pub fn from_str(value: &str) -> (r: Self)
        ensures
            r == region_type_named(lower_seq(value@)),
    {
        let raw = chars_of(value);
        let l = lower_chars(raw.as_slice());
        let s = l.as_slice();
        if chars_eq(s, "text") {
            LayoutRegionType::Text
        } else if chars_eq(s, "title") {
            LayoutRegionType::Title
        } else if chars_eq(s, "list") {
            LayoutRegionType::List
        } else if chars_eq(s, "table") {
            LayoutRegionType::Table
        } else if chars_eq(s, "figure") {
            LayoutRegionType::Figure
        } else if chars_eq(s, "formula") {
            LayoutRegionType::Formula
        } else if chars_eq(s, "header") {
            LayoutRegionType::Header
        } else if chars_eq(s, "footer") {
            LayoutRegionType::Footer
        } else if chars_eq(s, "footnote") {
            LayoutRegionType::Footnote
        } else if chars_eq(s, "caption") {
            LayoutRegionType::Caption
        } else if chars_eq(s, "watermark") {
            LayoutRegionType::Watermark
        } else if chars_eq(s, "sidebar") {
            LayoutRegionType::Sidebar
        } else if chars_eq(s, "code") {
            LayoutRegionType::Code
        } else {
            LayoutRegionType::Unknown
        }
    }

    pub fn as_str(&self) -> (s: &'static str)
        ensures
            s@ == self.name(),
    {
        match self {
            LayoutRegionType::Text => "text",
            LayoutRegionType::Title => "title",
            LayoutRegionType::List => "list",
            LayoutRegionType::Table => "table",
            LayoutRegionType::Figure => "figure",
            LayoutRegionType::Formula => "formula",
            LayoutRegionType::Header => "header",
            LayoutRegionType::Footer => "footer",
            LayoutRegionType::Footnote => "footnote",
            LayoutRegionType::Caption => "caption",
            LayoutRegionType::Watermark => "watermark",
            LayoutRegionType::Sidebar => "sidebar",
            LayoutRegionType::Code => "code",
            LayoutRegionType::Unknown => "unknown",
        }
    }
}

/// Region type names are read in any ASCII case: a text that is a region type's
/// name once lowercased (its upper-case spelling among them) reads as that type.
pub proof fn law_region_type_names_ignore_case(t: LayoutRegionType, s: Seq<char>)
    requires
        lower_seq(s) == t.name(),
    ensures
        region_type_named(lower_seq(s)) == t,
{
    law_region_type_name_round_trip(t);
    let n = t.name();
    assert(lower_seq(n) =~= n) by {
        assert forall|i: int| 0 <= i < n.len() implies #[trigger] lower_seq(n)[i] == n[i] by {
            reveal_strlit("text");
            reveal_strlit("title");
            reveal_strlit("list");
            reveal_strlit("table");
            reveal_strlit("figure");
            reveal_strlit("formula");
            reveal_strlit("header");
            reveal_strlit("footer");
            reveal_strlit("footnote");
            reveal_strlit("caption");
            reveal_strlit("watermark");
            reveal_strlit("sidebar");
            reveal_strlit("code");
            reveal_strlit("unknown");
            assert(n[i] == '_' || ('a' <= n[i] && n[i] <= 'z'));
        }
    }
}

/// A text that names no region type, in any ASCII case, reads as `Unknown`.
pub proof fn law_unnamed_region_type_is_unknown(s: Seq<char>)
    requires
        forall|t: LayoutRegionType| #[trigger] t.name() != lower_seq(s),
    ensures
        region_type_named(lower_seq(s)) == LayoutRegionType::Unknown,
{
    assert(LayoutRegionType::Text.name() != lower_seq(s));
    assert(LayoutRegionType::Title.name() != lower_seq(s));
    assert(LayoutRegionType::List.name() != lower_seq(s));
    assert(LayoutRegionType::Table.name() != lower_seq(s));
    assert(LayoutRegionType::Figure.name() != lower_seq(s));
    assert(LayoutRegionType::Formula.name() != lower_seq(s));
    assert(LayoutRegionType::Header.name() != lower_seq(s));
    assert(LayoutRegionType::Footer.name() != lower_seq(s));
    assert(LayoutRegionType::Footnote.name() != lower_seq(s));
    assert(LayoutRegionType::Caption.name() != lower_seq(s));
    assert(LayoutRegionType::Watermark.name() != lower_seq(s));
    assert(LayoutRegionType::Sidebar.name() != lower_seq(s));
    assert(LayoutRegionType::Code.name() != lower_seq(s));
}

/// Reading a region type's own name gives the region type back.
pub proof fn law_region_type_name_round_trip(t: LayoutRegionType)
    ensures
        region_type_named(lower_seq(t.name())) == t,
{
    reveal_strlit("text");
    reveal_strlit("title");
    reveal_strlit("list");
    reveal_strlit("table");
    reveal_strlit("figure");
    reveal_strlit("formula");
    reveal_strlit("header");
    reveal_strlit("footer");
    reveal_strlit("footnote");
    reveal_strlit("caption");
    reveal_strlit("watermark");
    reveal_strlit("sidebar");
    reveal_strlit("code");
    reveal_strlit("unknown");
    let n = t.name();
    assert(lower_seq(n) =~= n) by {
        assert forall|i: int| 0 <= i < n.len() implies #[trigger] lower_seq(n)[i] == n[i] by {
            assert(n[i] == '_' || ('a' <= n[i] && n[i] <= 'z'));
        }
    }
    match t {
        LayoutRegionType::Text => {
            assert(lower_seq(n) == "text"@);
            assert(region_type_named("text"@) == LayoutRegionType::Text);
        },
        LayoutRegionType::Title => {
            assert(lower_seq(n) == "title"@);
            assert(region_type_named("title"@) == LayoutRegionType::Title);
        },
        LayoutRegionType::List => {
            assert(lower_seq(n) == "list"@);
            assert("list"@[0] != "text"@[0]);
            assert(region_type_named("list"@) == LayoutRegionType::List);
        },
        LayoutRegionType::Table => {
            assert(lower_seq(n) == "table"@);
            assert("table"@[1] != "title"@[1]);
            assert(region_type_named("table"@) == LayoutRegionType::Table);
        },
        LayoutRegionType::Figure => {
            assert(lower_seq(n) == "figure"@);
            assert(region_type_named("figure"@) == LayoutRegionType::Figure);
        },
        LayoutRegionType::Formula => {
            assert(lower_seq(n) == "formula"@);
            assert(region_type_named("formula"@) == LayoutRegionType::Formula);
        },
        LayoutRegionType::Header => {
            assert(lower_seq(n) == "header"@);
            assert("header"@[0] != "figure"@[0]);
            assert(region_type_named("header"@) == LayoutRegionType::Header);
        },
        LayoutRegionType::Footer => {
            assert(lower_seq(n) == "footer"@);
            assert("footer"@[1] != "figure"@[1]);
            assert("footer"@[0] != "header"@[0]);
            assert(region_type_named("footer"@) == LayoutRegionType::Footer);
        },
        LayoutRegionType::Footnote => {
            assert(lower_seq(n) == "footnote"@);
            assert(region_type_named("footnote"@) == LayoutRegionType::Footnote);
        },
        LayoutRegionType::Caption => {
            assert(lower_seq(n) == "caption"@);
            assert("caption"@[0] != "formula"@[0]);
            assert(region_type_named("caption"@) == LayoutRegionType::Caption);
        },
        LayoutRegionType::Watermark => {
            assert(lower_seq(n) == "watermark"@);
            assert(region_type_named("watermark"@) == LayoutRegionType::Watermark);
        },
        LayoutRegionType::Sidebar => {
            assert(lower_seq(n) == "sidebar"@);
            assert("sidebar"@[0] != "formula"@[0]);
            assert("sidebar"@[0] != "caption"@[0]);
            assert(region_type_named("sidebar"@) == LayoutRegionType::Sidebar);
        },
        LayoutRegionType::Code => {
            assert(lower_seq(n) == "code"@);
            assert("code"@[0] != "text"@[0]);
            assert("code"@[0] != "list"@[0]);
            assert(region_type_named("code"@) == LayoutRegionType::Code);
        },
        LayoutRegionType::Unknown => {
            assert(lower_seq(n) == "unknown"@);
            assert("unknown"@[0] != "formula"@[0]);
            assert("unknown"@[0] != "caption"@[0]);
            assert("unknown"@[0] != "sidebar"@[0]);
            assert(region_type_named("unknown"@) == LayoutRegionType::Unknown);
        },
    }
}

#[derive(Clone, Copy, Debug, PartialEq, Eq, Structural)]
pub enum LayoutSource {
    Heuristic,
    Mock,
    Fixture,
    Model,
    NativePdf,
}

impl LayoutSource {
    pub open spec fn name(self) -> Seq<char> {
        match self {
            LayoutSource::Heuristic => "heuristic"@,
            LayoutSource::Mock => "mock"@,
            LayoutSource::Fixture => "fixture"@,
            LayoutSource::Model => "model"@,
            LayoutSource::NativePdf => "native_pdf"@,
        }
    }

    pub fn as_str(&self) -> (s: &'static str)
        ensures
            s@ == self.name(),
    {
        match self {
            LayoutSource::Heuristic => "heuristic",
            LayoutSource::Mock => "mock",
            LayoutSource::Fixture => "fixture",
            LayoutSource::Model => "model",
            LayoutSource::NativePdf => "native_pdf",
        }
    }
}

/// A region that a layout detector found on a page.
#[derive(Debug)]
pub struct LayoutRegion {
    pub region_id: String,
    pub page_number: u32,
    pub region_type: LayoutRegionType,
    pub bbox: BBox,
    pub polygon: Option<Vec<(i64, i64)>>,
    pub confidence_permille: u32,
    pub reading_order: Option<u32>,
    pub source: LayoutSource,
}

/// The region types for which a placeholder element is made.
pub open spec fn makes_placeholder(t: LayoutRegionType) -> bool {
    t == LayoutRegionType::Table || t == LayoutRegionType::Formula || t == LayoutRegionType::Figure
        || t == LayoutRegionType::Watermark || t == LayoutRegionType::Unknown
}

pub fn should_create_placeholder(region_type: &LayoutRegionType) -> (r: bool)
    ensures
        r == makes_placeholder(*region_type),
{
    match region_type {
        LayoutRegionType::Table | LayoutRegionType::Formula | LayoutRegionType::Figure
        | LayoutRegionType::Watermark | LayoutRegionType::Unknown => true,
        _ => false,
    }
}

/// The element type, role and text of the placeholder for a region type.
pub open spec fn placeholder_parts(t: LayoutRegionType) -> (ElementType, Seq<char>, Seq<char>) {
    match t {
        LayoutRegionType::Table => (
            ElementType::Table,
            "layout_table_placeholder"@,
            "[Обнаружена область таблицы макета]"@,
        ),
        LayoutRegionType::Formula => (
            ElementType::Formula,
            "layout_formula_placeholder"@,
            "[Обнаружена область формулы макета]"@,
        ),
        LayoutRegionType::Figure => (
            ElementType::Image,
            "layout_figure_placeholder"@,
            "[Обнаружена область изображения/фигуры]"@,
        ),
        LayoutRegionType::Watermark => (
            ElementType::Watermark,
            "layout_watermark"@,
            "[Обнаружен возможный watermark]"@,
        ),
        _ => (
            ElementType::Unknown,
            "layout_unknown_region"@,
            "[Обнаружена область неизвестного типа]"@,
        ),
    }
}

fn placeholder_parts_exec(t: LayoutRegionType) -> (r: (ElementType, &'static str, &'static str))
    ensures
        r.0 == placeholder_parts(t).0,
        r.1@ == placeholder_parts(t).1,
        r.2@ == placeholder_parts(t).2,
{
    match t {
        LayoutRegionType::Table => (
            ElementType::Table,
            "layout_table_placeholder",
            "[Обнаружена область таблицы макета]",
        ),
        LayoutRegionType::Formula => (
            ElementType::Formula,
            "layout_formula_placeholder",
            "[Обнаружена область формулы макета]",
        ),
        LayoutRegionType::Figure => (
            ElementType::Image,
            "layout_figure_placeholder",
            "[Обнаружена область изображения/фигуры]",
        ),
        LayoutRegionType::Watermark => (
            ElementType::Watermark,
            "layout_watermark",
            "[Обнаружен возможный watermark]",
        ),
        _ => (
            ElementType::Unknown,
            "layout_unknown_region",
            "[Обнаружена область неизвестного типа]",
        ),
    }
}

/// The identifier of the placeholder element of a region: `p{page}_layout_{region}`.
pub open spec fn placeholder_id(page_number: u32, region_id: Seq<char>) -> Seq<char> {
    "p"@ + decimal(page_number as nat) + "_layout_"@ + region_id
}

/// Builds the element that stands for a layout region before its content is known.
pub fn layout_region_to_element_placeholder(region: &LayoutRegion) -> (e: Element)
    ensures
        e.element_id@ == placeholder_id(region.page_number, region.region_id@),
        e.element_type == placeholder_parts(region.region_type).0,
        e.tag.is_some() && e.tag.unwrap()@ == "layout_region"@,
        e.role.is_some() && e.role.unwrap()@ == placeholder_parts(region.region_type).1,
        e.reading_order == region.reading_order,
        e.global_order.is_none(),
        e.bbox == Some(region.bbox),
        e.text.is_some() && e.text.unwrap()@ == placeholder_parts(region.region_type).2,
        e.markdown.is_some() && e.markdown.unwrap()@ == placeholder_parts(region.region_type).2,
        e.normalized_text.is_some() && e.normalized_text.unwrap()@ == placeholder_parts(region.region_type).2,
        e.html.is_none(),
        e.raw.is_none(),
        e.provenance.method@ == "inferred"@,
        e.provenance.tool@ == region.source.name() + "_layout_detector"@,
        e.provenance.stage@ == "layout_detection"@,
        e.provenance.source_kind.is_some() && e.provenance.source_kind.unwrap()@ == "layout_region"@,
        e.provenance.source_value.is_some() && e.provenance.source_value.unwrap()@ == region.region_id@,
        e.confidence_permille == region.confidence_permille,
        e.warnings@.len() == 1,
        e.warnings@[0].code@ == "LAYOUT_REGION_PLACEHOLDER"@,
        e.warnings@[0].severity@ == "warning"@,
        e.warnings@[0].scope@ == "element"@,
        e.warnings@[0].page_number == Some(region.page_number),
        e.warnings@[0].element_id.is_none(),
        e.warnings@[0].recoverable,
        e.extra@.len() == 3,
        e.extra@[0].0@ == "layout_region_id"@ && e.extra@[0].1@ == region.region_id@,
        e.extra@[1].0@ == "layout_source"@ && e.extra@[1].1@ == region.source.name(),
        e.extra@[2].0@ == "layout_region_type"@ && e.extra@[2].1@ == region.region_type.name(),
{
    let parts = placeholder_parts_exec(region.region_type);
    let mut id: Vec<char> = Vec::new();
    push_str_chars(&mut id, "p");
    let page = decimal_string(region.page_number as u64);
    push_str_chars(&mut id, page.as_str());
    push_str_chars(&mut id, "_layout_");
    push_str_chars(&mut id, region.region_id.as_str());
    let mut tool: Vec<char> = Vec::new();
    push_str_chars(&mut tool, region.source.as_str());
    push_str_chars(&mut tool, "_layout_detector");
    let mut prov = provenance(
        string_from_chars(tool.as_slice()).as_str(),
        "layout_detection",
        "layout_region",
        region.region_id.as_str(),
    );
    prov.method = to_owned_string("inferred");
    let mut warnings: Vec<Diagnostic> = Vec::new();
    warnings.push(
        Diagnostic {
            code: to_owned_string("LAYOUT_REGION_PLACEHOLDER"),
            severity: to_owned_string("warning"),
            scope: to_owned_string("element"),
            page_number: Some(region.page_number),
            element_id: None,
            message: to_owned_string("Создан placeholder элемент на основе layout-региона."),
            recoverable: true,
            extra: Vec::new(),
        },
    );
    let mut extra: Vec<(String, String)> = Vec::new();
    extra.push((to_owned_string("layout_region_id"), region.region_id.clone()));
    extra.push((to_owned_string("layout_source"), to_owned_string(region.source.as_str())));
    extra.push((to_owned_string("layout_region_type"), to_owned_string(region.region_type.as_str())));
    Element {
        element_id: string_from_chars(id.as_slice()),
        element_type: parts.0,
        tag: Some(to_owned_string("layout_region")),
        role: Some(to_owned_string(parts.1)),
        reading_order: region.reading_order,
        global_order: None,
        bbox: Some(region.bbox),
        text: Some(to_owned_string(parts.2)),
        markdown: Some(to_owned_string(parts.2)),
        html: None,
        normalized_text: Some(to_owned_string(parts.2)),
        raw: None,
        items: Vec::new(),
        exclude_from_chunks: false,
        table_linearized: Vec::new(),
        provenance: prov,
        confidence_permille: region.confidence_permille,
        warnings,
        extra,
    }
}

} // verus!
