//! PDF documents: which pages are rendered to images, and how native and
//! recognized text are merged.

use vstd::prelude::*;
use crate::config::{bool_opt, config_bool, config_milli, milli_opt, PipelineConfig};
use crate::classifier::FileClassification;
use crate::extractors::rtf::is_stage;
use crate::extractors::{
    base_document_model, count_elements, count_pages, counts_bounded, diagnostic, document_notice,
    lemma_count_elements_grows, source_identity, stage, stats_for, update_stats, word_count,
    StatsCount,
};
use crate::model::{
    Asset, BBox, ContentMode, Diagnostic, DocumentFormat, DocumentModel, Element, ElementType, Page,
    PageProfile, PageType, ProcessingStage, ProcessingStatus, Provenance, StageStatus,
};
use crate::text::{
    join, push_chars, seq_contains, split_chars, split_on, string_from_chars, to_owned_string, trim,
    trim_chars, views, decimal, decimal_string, join_strings,
};
use crate::unicode::{to_lowercase, unicode_lower};

verus! {

/// The extractor of PDF documents.
pub struct PdfExtractor;

impl PdfExtractor {
    pub fn name(&self) -> (s: &'static str)
        ensures
            s@ == "pdf_extractor"@,
    {
        "pdf_extractor"
    }
}

/// What a PDF page holds, as far as its reader can tell.
#[derive(Clone, Copy, Debug, PartialEq, Eq, Structural)]
pub enum PdfPageContentMode {
    Digital,
    Hybrid,
    Scanned,
    Empty,
    Unknown,
}

/// Whether a page of this kind is rendered to an image: digital pages only where
/// `pdf.render_digital_pages` asks for it, hybrid and scanned pages unless
/// `pdf.render_hybrid_pages` or `pdf.render_scanned_pages` forbid it, empty and
/// unknown pages never.
pub open spec fn renders_page(mode: PdfPageContentMode, config: Option<&PipelineConfig>) -> bool {
    match mode {
        PdfPageContentMode::Digital => config_bool(config, seq!["pdf"@, "render_digital_pages"@], false),
        PdfPageContentMode::Hybrid => config_bool(config, seq!["pdf"@, "render_hybrid_pages"@], true),
        PdfPageContentMode::Scanned => config_bool(config, seq!["pdf"@, "render_scanned_pages"@], true),
        PdfPageContentMode::Empty | PdfPageContentMode::Unknown => false,
    }
}

fn pdf_flag(config: Option<&PipelineConfig>, key: &'static str, default: bool) -> (r: bool)
    ensures
        r == config_bool(config, seq!["pdf"@, key@], default),
{
    let path = ["pdf", key];
    proof {
        assert(path@.map_values(|s: &str| s@) =~= seq!["pdf"@, key@]);
    }
    bool_opt(config, &path, default)
}

/// Whether a page of this kind is rendered to an image (see [`renders_page`]).
pub fn should_render_page(mode: PdfPageContentMode, config: Option<&PipelineConfig>) -> (r: bool)
    ensures
        r == renders_page(mode, config),
{
    let render_digital = pdf_flag(config, "render_digital_pages", false);
    let render_hybrid = pdf_flag(config, "render_hybrid_pages", true);
    let render_scanned = pdf_flag(config, "render_scanned_pages", true);
    match mode {
        PdfPageContentMode::Digital => render_digital,
        PdfPageContentMode::Hybrid => render_hybrid,
        PdfPageContentMode::Scanned => render_scanned,
        PdfPageContentMode::Empty | PdfPageContentMode::Unknown => false,
    }
}

/// How native text and recognized text are told apart when both cover a region:
/// the box overlap and text similarity (in thousandths) above which two elements
/// are one, and which of the two is kept.
#[derive(Clone, Copy, Debug, PartialEq, Eq, Structural)]
pub struct DedupOptions {
    pub bbox_iou_threshold_milli: i64,
    pub text_similarity_threshold_milli: i64,
    pub prefer_native_text: bool,
}

/// The merge options that `merge.bbox_iou_threshold`,
/// `merge.text_similarity_threshold` and `merge.prefer_native_text` set, with the
/// defaults 0.5, 0.8 and `true`.
pub fn dedup_options(config: Option<&PipelineConfig>) -> (o: DedupOptions)
    ensures
        o.bbox_iou_threshold_milli == config_milli(config, seq!["merge"@, "bbox_iou_threshold"@], 500),
        o.text_similarity_threshold_milli == config_milli(
            config,
            seq!["merge"@, "text_similarity_threshold"@],
            800,
        ),
        o.prefer_native_text == config_bool(config, seq!["merge"@, "prefer_native_text"@], true),
{
    let iou = ["merge", "bbox_iou_threshold"];
    let similarity = ["merge", "text_similarity_threshold"];
    let native = ["merge", "prefer_native_text"];
    proof {
        assert(iou@.map_values(|s: &str| s@) =~= seq!["merge"@, "bbox_iou_threshold"@]);
        assert(similarity@.map_values(|s: &str| s@) =~= seq!["merge"@, "text_similarity_threshold"@]);
        assert(native@.map_values(|s: &str| s@) =~= seq!["merge"@, "prefer_native_text"@]);
    }
    DedupOptions {
        bbox_iou_threshold_milli: milli_opt(config, &iou, 500),
        text_similarity_threshold_milli: milli_opt(config, &similarity, 800),
        prefer_native_text: bool_opt(config, &native, true),
    }
}

/// The native text of a PDF with every line end made `\n` (see
/// [`normalize_newlines`](crate::extractors::txt::normalize_newlines)).
pub fn pdf_native_text(text: &str) -> (r: String)
    ensures
        r@ == crate::extractors::txt::normalize_newlines(text@),
{
    let v = crate::text::chars_of(text);
    let out = crate::extractors::txt::normalize_newlines_chars(v.as_slice());
    string_from_chars(out.as_slice())
}

/// The parts that are not empty, in order.
pub open spec fn nonempty_parts(parts: Seq<Seq<char>>) -> Seq<Seq<char>>
    decreases parts.len(),
{
    if parts.len() == 0 {
        Seq::empty()
    } else {
        let rest = nonempty_parts(parts.drop_last());
        if parts.last().len() > 0 {
            rest.push(parts.last())
        } else {
            rest
        }
    }
}

/// The cells of a line of a pipe table: the line cut at `|`, each piece trimmed,
/// the empty ones left out.
pub open spec fn pipe_cells(line: Seq<char>) -> Seq<Seq<char>> {
    nonempty_parts(split_on(line, '|').map_values(|p: Seq<char>| trim(p)))
}

/// The cells of the lines that have `width` cells, in order.
pub open spec fn matching_rows(lines: Seq<Seq<char>>, width: nat) -> Seq<Seq<Seq<char>>>
    decreases lines.len(),
{
    if lines.len() == 0 {
        Seq::empty()
    } else {
        let rest = matching_rows(lines.drop_last(), width);
        if pipe_cells(lines.last()).len() == width {
            rest.push(pipe_cells(lines.last()))
        } else {
            rest
        }
    }
}

/// The table that a page's text spells with `|` marks: where the text has a `|` and
/// two lines, and its first line two cells or more, the rows are that header and
/// every later line with as many cells; a table needs the header and one row.
pub open spec fn pipe_table(text: Seq<char>) -> Option<Seq<Seq<Seq<char>>>> {
    if !seq_contains(text, seq!['|']) {
        None
    } else {
        let ls = crate::extractors::txt::text_lines(text);
        if ls.len() < 2 {
            None
        } else {
            let header = pipe_cells(ls[0]);
            if header.len() < 2 {
                None
            } else {
                let rows = seq![header] + matching_rows(ls.skip(1), header.len());
                if rows.len() >= 2 {
                    Some(rows)
                } else {
                    None
                }
            }
        }
    }
}

fn pipe_cells_exec(line: &[char]) -> (r: Vec<String>)
    ensures
        views(r@) == pipe_cells(line@),
{
    let pieces = split_chars(line, '|');
    let ghost sp = split_on(line@, '|');
    let ghost tp = sp.map_values(|p: Seq<char>| trim(p));
    let mut out: Vec<String> = Vec::new();
    let mut i: usize = 0;
    while i < pieces.len()
        invariant
            i <= pieces@.len(),
            pieces@.len() == sp.len(),
            tp == sp.map_values(|p: Seq<char>| trim(p)),
            forall|k: int| 0 <= k < pieces@.len() ==> #[trigger] pieces@[k]@ == sp[k],
            views(out@) == nonempty_parts(tp.take(i as int)),
        decreases pieces@.len() - i,
    {
        proof {
            assert(tp.take(i + 1).drop_last() =~= tp.take(i as int));
            assert(tp.take(i + 1).last() == trim(sp[i as int]));
        }
        let t = trim_chars(pieces[i].as_slice());
        if t.len() > 0 {
            let ghost before = views(out@);
            out.push(string_from_chars(t.as_slice()));
            assert(views(out@) =~= before.push(t@));
        }
        i = i + 1;
    }
    assert(tp.take(i as int) =~= tp);
    out
}

/// The rows of the table that the page text spells with `|` marks, if it spells
/// one (see [`pipe_table`]).
pub fn pipe_table_rows(text: &str) -> (r: Option<Vec<Vec<String>>>)
    ensures
        match pipe_table(text@) {
            Some(rows) => r.is_some() && r.unwrap()@.len() == rows.len() && forall|k: int|
                0 <= k < rows.len() ==> views(#[trigger] r.unwrap()@[k]@) == rows[k],
            None => r.is_none(),
        },
{
    let v = crate::text::chars_of(text);
    let bar: [char; 1] = ['|'];
    if !crate::text::contains_chars(v.as_slice(), &bar) {
        assert(bar@ =~= seq!['|']);
        return None;
    }
    assert(bar@ =~= seq!['|']);
    let ls = crate::extractors::txt::lines_of(v.as_slice());
    let ghost tl = crate::extractors::txt::text_lines(text@);
    if ls.len() < 2 {
        return None;
    }
    let header = pipe_cells_exec(ls[0].as_slice());
    let width = header.len();
    if width < 2 {
        return None;
    }
    let ghost rest = tl.skip(1);
    let mut rows: Vec<Vec<String>> = Vec::new();
    rows.push(header);
    let mut i: usize = 1;
    assert(rest.take(0) =~= Seq::<Seq<char>>::empty());
    while i < ls.len()
        invariant
            1 <= i <= ls@.len(),
            ls@.len() == tl.len(),
            forall|k: int| 0 <= k < ls@.len() ==> #[trigger] ls@[k]@ == tl[k],
            rest == tl.skip(1),
            width == pipe_cells(tl[0]).len(),
            rows@.len() == 1 + matching_rows(rest.take(i - 1), width as nat).len(),
            views(rows@[0]@) == pipe_cells(tl[0]),
            forall|k: int|
                1 <= k < rows@.len() ==> views(#[trigger] rows@[k]@) == matching_rows(rest.take(i - 1), width as nat)[k - 1],
        decreases ls@.len() - i,
    {
        proof {
            assert(rest.take(i as int).drop_last() =~= rest.take(i - 1));
            assert(rest.take(i as int).last() == tl[i as int]);
        }
        let row = pipe_cells_exec(ls[i].as_slice());
        if row.len() == width {
            rows.push(row);
        }
        i = i + 1;
    }
    assert(rest.take(i - 1) =~= rest);
    if rows.len() >= 2 {
        proof {
            let want = pipe_table(text@).unwrap();
            assert(want == seq![pipe_cells(tl[0])] + matching_rows(rest, width as nat));
            assert forall|k: int| 0 <= k < want.len() implies views(#[trigger] rows@[k]@) == want[k] by {}
        }
        Some(rows)
    } else {
        None
    }
}

/// The text of the table: its rows' cells joined by ` | `, one row a line.
pub open spec fn pdf_table_text(rows: Seq<Seq<Seq<char>>>) -> Seq<char> {
    join(rows.map_values(|r: Seq<Seq<char>>| join(r, " | "@)), "\n"@)
}

/// `e` is the table stub of page `page_number`, the `order`-th element of the page,
/// made of the rows `rows` found in the page's text `page_text`.
pub open spec fn pdf_table_element(
    e: Element,
    page_number: nat,
    order: nat,
    rows: Seq<Seq<Seq<char>>>,
    page_text: Seq<char>,
) -> bool {
    &&& e.element_id@ == "p"@ + decimal(page_number) + "_table_1"@
    &&& e.element_type == ElementType::Table
    &&& e.tag matches Some(t) && t@ == "pdf_table_stub"@
    &&& e.role matches Some(t) && t@ == "data_table"@
    &&& e.reading_order == Some(order as u32)
    &&& e.global_order.is_none()
    &&& e.bbox == Some(BBox { x0: 0, y0: 0, x1: 1000, y1: 200 })
    &&& e.text matches Some(t) && t@ == pdf_table_text(rows)
    &&& e.markdown.is_none()
    &&& e.html.is_none()
    &&& e.normalized_text matches Some(t) && t@ == unicode_lower(pdf_table_text(rows))
    &&& e.raw matches Some(t) && t@ == page_text
    &&& e.items@.len() == 0
    &&& !e.exclude_from_chunks
    &&& e.table_linearized@.len() == 0
    &&& e.provenance.method@ == "native"@
    &&& e.provenance.tool@ == "pdf_native_extractor"@
    &&& e.provenance.stage@ == "pdf_table_stub"@
    &&& e.provenance.source_kind.is_none()
    &&& e.provenance.source_value.is_none()
    &&& e.confidence_permille == 700
    &&& e.warnings@.len() == 0
    &&& e.extra@.len() == 2
    &&& e.extra@[0].0@ == "rows"@ && e.extra@[0].1@ == decimal(rows.len())
    &&& e.extra@[1].0@ == "columns"@ && e.extra@[1].1@ == decimal(rows[0].len())
}

fn table_text_exec(rows: &Vec<Vec<String>>) -> (r: String)
    ensures
        r@ == pdf_table_text(rows@.map_values(|row: Vec<String>| views(row@))),
{
    let ghost rv = rows@.map_values(|row: Vec<String>| views(row@));
    let mut lines: Vec<String> = Vec::new();
    let mut i: usize = 0;
    while i < rows.len()
        invariant
            i <= rows@.len(),
            rv == rows@.map_values(|row: Vec<String>| views(row@)),
            views(lines@) == rv.take(i as int).map_values(|r: Seq<Seq<char>>| join(r, " | "@)),
        decreases rows@.len() - i,
    {
        let ghost before = views(lines@);
        lines.push(join_strings(&rows[i], " | "));
        proof {
            assert(rv.take(i + 1) =~= rv.take(i as int).push(rv[i as int]));
            assert(views(lines@) =~= before.push(join(rv[i as int], " | "@)));
        }
        i = i + 1;
    }
    assert(rv.take(i as int) =~= rv);
    join_strings(&lines, "\n")
}

/// The table stub of page `page_number` from the rows found in its text.
pub fn pdf_table_stub(page_number: u32, order: u32, rows: &Vec<Vec<String>>, page_text: &String) -> (e: Element)
    requires
        rows@.len() > 0,
    ensures
        pdf_table_element(e, page_number as nat, order as nat, rows@.map_values(|row: Vec<String>| views(row@)), page_text@),
{
    let text = table_text_exec(rows);
    let normalized = to_lowercase(text.as_str());
    let mut id: Vec<char> = Vec::new();
    crate::text::push_str_chars(&mut id, "p");
    crate::text::push_str_chars(&mut id, decimal_string(page_number as u64).as_str());
    crate::text::push_str_chars(&mut id, "_table_1");
    let mut extra: Vec<(String, String)> = Vec::new();
    extra.push((to_owned_string("rows"), decimal_string(rows.len() as u64)));
    extra.push((to_owned_string("columns"), decimal_string(rows[0].len() as u64)));
    Element {
        element_id: string_from_chars(id.as_slice()),
        element_type: ElementType::Table,
        tag: Some(to_owned_string("pdf_table_stub")),
        role: Some(to_owned_string("data_table")),
        reading_order: Some(order),
        global_order: None,
        bbox: Some(BBox { x0: 0, y0: 0, x1: 1000, y1: 200 }),
        text: Some(text),
        markdown: None,
        html: None,
        normalized_text: Some(normalized),
        raw: Some(page_text.clone()),
        items: Vec::new(),
        exclude_from_chunks: false,
        table_linearized: Vec::new(),
        provenance: Provenance {
            method: to_owned_string("native"),
            tool: to_owned_string("pdf_native_extractor"),
            stage: to_owned_string("pdf_table_stub"),
            source_kind: None,
            source_value: None,
        },
        confidence_permille: 700,
        warnings: Vec::new(),
        extra,
    }
}

/// The content mode of a page of this kind.
pub open spec fn page_content_mode(mode: PdfPageContentMode) -> ContentMode {
    match mode {
        PdfPageContentMode::Digital => ContentMode::Digital,
        PdfPageContentMode::Scanned => ContentMode::Scanned,
        PdfPageContentMode::Hybrid => ContentMode::Hybrid,
        PdfPageContentMode::Empty | PdfPageContentMode::Unknown => ContentMode::Unknown,
    }
}

pub fn pdf_page_content_mode(mode: PdfPageContentMode) -> (r: ContentMode)
    ensures
        r == page_content_mode(mode),
{
    match mode {
        PdfPageContentMode::Digital => ContentMode::Digital,
        PdfPageContentMode::Scanned => ContentMode::Scanned,
        PdfPageContentMode::Hybrid => ContentMode::Hybrid,
        PdfPageContentMode::Empty | PdfPageContentMode::Unknown => ContentMode::Unknown,
    }
}

/// The engine that recognizes text on page images.
#[derive(Clone, Copy, Debug, PartialEq, Eq, Structural)]
pub enum OcrBackendKind {
    Onnx,
    Triton,
    Mock,
    Disabled,
}

/// The tool name that the stages of a backend carry.
pub open spec fn ocr_tool(kind: OcrBackendKind) -> Seq<char> {
    match kind {
        OcrBackendKind::Onnx => "onnxruntime"@,
        OcrBackendKind::Triton => "triton"@,
        OcrBackendKind::Mock => "mock_ocr"@,
        OcrBackendKind::Disabled => "ocr_disabled"@,
    }
}

pub fn ocr_tool_name(kind: OcrBackendKind) -> (r: &'static str)
    ensures
        r@ == ocr_tool(kind),
{
    match kind {
        OcrBackendKind::Onnx => "onnxruntime",
        OcrBackendKind::Triton => "triton",
        OcrBackendKind::Mock => "mock_ocr",
        OcrBackendKind::Disabled => "ocr_disabled",
    }
}

/// The backend that reads the pages: the mock one when setting up the configured
/// backend warned that it fell back to it, the configured one otherwise.
pub fn effective_ocr_backend(configured: OcrBackendKind, warning_codes: &Vec<String>) -> (r: OcrBackendKind)
    ensures
        r == (if views(warning_codes@).contains("OCR_BACKEND_FALLBACK_TO_MOCK"@) {
            OcrBackendKind::Mock
        } else {
            configured
        }),
{
    let mut i: usize = 0;
    while i < warning_codes.len()
        invariant
            i <= warning_codes@.len(),
            forall|j: int| 0 <= j < i ==> warning_codes@[j]@ != "OCR_BACKEND_FALLBACK_TO_MOCK"@,
        decreases warning_codes@.len() - i,
    {
        if crate::json::str_eq(&warning_codes[i], "OCR_BACKEND_FALLBACK_TO_MOCK") {
            assert(views(warning_codes@)[i as int] == "OCR_BACKEND_FALLBACK_TO_MOCK"@);
            return OcrBackendKind::Mock;
        }
        i = i + 1;
    }
    proof {
        if views(warning_codes@).contains("OCR_BACKEND_FALLBACK_TO_MOCK"@) {
            let j = choose|j: int| 0 <= j < views(warning_codes@).len() && views(warning_codes@)[j] == "OCR_BACKEND_FALLBACK_TO_MOCK"@;
            assert(warning_codes@[j]@ == "OCR_BACKEND_FALLBACK_TO_MOCK"@);
        }
    }
    configured
}

/// Text recognition runs on a page that needs it when recognition is enabled and
/// the backend is not the disabled one.
pub open spec fn ocr_runs(requires_ocr: bool, ocr_enabled: bool, backend: OcrBackendKind) -> bool {
    requires_ocr && ocr_enabled && backend != OcrBackendKind::Disabled
}

/// `s` is a stage that was skipped for `reason`.
pub open spec fn skipped_stage(s: ProcessingStage, name: Seq<char>, tool: Seq<char>, reason: Seq<char>) -> bool {
    &&& s.name@ == name
    &&& s.status == StageStatus::Skipped
    &&& s.tool@ == tool
    &&& s.duration_ms == Some(0u64)
    &&& s.metadata@.len() == 1
    &&& s.metadata@[0].0@ == "reason"@ && s.metadata@[0].1@ == reason
}

/// Why recognition was skipped on a page.
pub open spec fn ocr_skip_reason(requires_ocr: bool, ocr_enabled: bool, backend: OcrBackendKind) -> Seq<char> {
    if ocr_runs(requires_ocr, ocr_enabled, backend) {
        "render_missing_for_ocr"@
    } else if !requires_ocr {
        "ocr_not_required"@
    } else {
        "ocr_disabled"@
    }
}

/// `st` are the stages of a page: rendering (done where the page is rendered,
/// skipped otherwise), then recognition (with the ONNX backend's load, detection,
/// crop and total stages around it) where it runs on a rendered image, or its
/// skipping with the reason, then the merge of native and recognized text.
pub open spec fn pdf_page_stages(
    st: Seq<ProcessingStage>,
    render_needed: bool,
    rendered: bool,
    requires_ocr: bool,
    ocr_enabled: bool,
    backend: OcrBackendKind,
) -> bool {
    let tool = ocr_tool(backend);
    &&& st.len() >= 3
    &&& if render_needed {
        is_stage(st[0], "pdf_render"@, "pdf_renderer"@, 1)
    } else {
        skipped_stage(st[0], "pdf_render"@, "pdf_renderer"@, "digital_page_render_disabled"@)
    }
    &&& if ocr_runs(requires_ocr, ocr_enabled, backend) && rendered {
        if backend == OcrBackendKind::Onnx {
            &&& st.len() == 7
            &&& is_stage(st[1], "ocr_load_image"@, "onnxruntime"@, 1)
            &&& is_stage(st[2], "ocr_detection"@, "onnxruntime"@, 1)
            &&& is_stage(st[3], "ocr_crop"@, "onnxruntime"@, 1)
            &&& is_stage(st[4], "ocr_recognition"@, tool, 1)
            &&& is_stage(st[5], "ocr_total"@, "onnxruntime"@, 1)
        } else {
            &&& st.len() == 3
            &&& is_stage(st[1], "ocr_recognition"@, tool, 1)
        }
    } else {
        &&& st.len() == 3
        &&& skipped_stage(st[1], "ocr_recognition"@, tool, ocr_skip_reason(requires_ocr, ocr_enabled, backend))
    }
    &&& is_stage(st[st.len() - 1], "native_ocr_merge"@, "native_ocr_merger"@, 1)
}

fn skipped(name: &str, tool: &str, reason: &str) -> (s: ProcessingStage)
    ensures
        skipped_stage(s, name@, tool@, reason@),
{
    let mut metadata: Vec<(String, String)> = Vec::new();
    metadata.push((to_owned_string("reason"), to_owned_string(reason)));
    ProcessingStage {
        name: to_owned_string(name),
        status: StageStatus::Skipped,
        tool: to_owned_string(tool),
        duration_ms: Some(0),
        metadata,
    }
}

/// The stages that one page of a PDF adds (see [`pdf_page_stages`]).
pub fn pdf_page_stage_list(
    render_needed: bool,
    rendered: bool,
    requires_ocr: bool,
    ocr_enabled: bool,
    backend: OcrBackendKind,
) -> (st: Vec<ProcessingStage>)
    ensures
        pdf_page_stages(st@, render_needed, rendered, requires_ocr, ocr_enabled, backend),
{
    let tool = ocr_tool_name(backend);
    let mut st: Vec<ProcessingStage> = Vec::new();
    if render_needed {
        st.push(stage("pdf_render", "pdf_renderer", 1));
    } else {
        st.push(skipped("pdf_render", "pdf_renderer", "digital_page_render_disabled"));
    }
    let runs = requires_ocr && ocr_enabled && backend != OcrBackendKind::Disabled;
    if runs {
        if rendered {
            let onnx = backend == OcrBackendKind::Onnx;
            if onnx {
                st.push(stage("ocr_load_image", "onnxruntime", 1));
                st.push(stage("ocr_detection", "onnxruntime", 1));
                st.push(stage("ocr_crop", "onnxruntime", 1));
            }
            st.push(stage("ocr_recognition", tool, 1));
            if onnx {
                st.push(stage("ocr_total", "onnxruntime", 1));
            }
        } else {
            st.push(skipped("ocr_recognition", tool, "render_missing_for_ocr"));
        }
    } else {
        let reason = if !requires_ocr { "ocr_not_required" } else { "ocr_disabled" };
        st.push(skipped("ocr_recognition", tool, reason));
    }
    st.push(stage("native_ocr_merge", "native_ocr_merger", 1));
    st
}

/// The warnings that the recognized elements dropped as duplicates of native text
/// leave, one for each, in order.
pub fn ocr_duplicate_warnings(page_number: u32, removed_ids: &Vec<String>) -> (ws: Vec<Diagnostic>)
    ensures
        ws@.len() == removed_ids@.len(),
        forall|j: int|
            0 <= j < ws@.len() ==> {
                let d = #[trigger] ws@[j];
                &&& d.code@ == "OCR_DUPLICATE_REMOVED"@
                &&& d.severity@ == "warning"@
                &&& d.scope@ == "element"@
                &&& d.page_number == Some(page_number)
                &&& d.element_id matches Some(t) && t@ == removed_ids@[j]@
                &&& d.message@ == "OCR element duplicated native text and was removed."@
                &&& d.recoverable
                &&& d.extra@.len() == 0
            },
{
    let mut ws: Vec<Diagnostic> = Vec::new();
    let mut i: usize = 0;
    while i < removed_ids.len()
        invariant
            i <= removed_ids@.len(),
            ws@.len() == i,
            forall|j: int|
                0 <= j < i ==> {
                    let d = #[trigger] ws@[j];
                    &&& d.code@ == "OCR_DUPLICATE_REMOVED"@
                    &&& d.severity@ == "warning"@
                    &&& d.scope@ == "element"@
                    &&& d.page_number == Some(page_number)
                    &&& d.element_id matches Some(t) && t@ == removed_ids@[j]@
                    &&& d.message@ == "OCR element duplicated native text and was removed."@
                    &&& d.recoverable
                    &&& d.extra@.len() == 0
                },
        decreases removed_ids@.len() - i,
    {
        ws.push(Diagnostic {
            code: to_owned_string("OCR_DUPLICATE_REMOVED"),
            severity: to_owned_string("warning"),
            scope: to_owned_string("element"),
            page_number: Some(page_number),
            element_id: Some(removed_ids[i].clone()),
            message: to_owned_string("OCR element duplicated native text and was removed."),
            recoverable: true,
            extra: Vec::new(),
        });
        i = i + 1;
    }
    ws
}

/// What the PDF classifier says of a page: its number, what it holds, whether it
/// has native text, needs recognition or shows images, and how sure it is
/// (permille).
pub struct PdfPageInfo {
    pub page_number: u32,
    pub content_mode: PdfPageContentMode,
    pub has_native_text: bool,
    pub requires_ocr: bool,
    pub has_images: bool,
    pub confidence_permille: u32,
}

/// An image of a page that the renderer made and stored.
pub struct RenderedPage {
    pub asset_id: String,
    pub path: String,
    pub mime_type: String,
    pub width: u32,
    pub height: u32,
    pub dpi: u32,
}

/// The texts of the elements that have one, in order.
pub open spec fn present_texts(es: Seq<Element>) -> Seq<Seq<char>>
    decreases es.len(),
{
    if es.len() == 0 {
        Seq::empty()
    } else {
        let rest = present_texts(es.drop_last());
        match es.last().text {
            Some(t) => rest.push(t@),
            None => rest,
        }
    }
}

/// The markdowns of the elements that have one, in order.
pub open spec fn present_markdowns(es: Seq<Element>) -> Seq<Seq<char>>
    decreases es.len(),
{
    if es.len() == 0 {
        Seq::empty()
    } else {
        let rest = present_markdowns(es.drop_last());
        match es.last().markdown {
            Some(t) => rest.push(t@),
            None => rest,
        }
    }
}

/// The text of a PDF page: the texts of its merged elements, one a line.
pub open spec fn pdf_page_text(merged: Seq<Element>) -> Seq<char> {
    join(present_texts(merged), "\n"@)
}

/// `p` is the page `info` with the merged native and recognized elements `merged`,
/// and the image `rendered` where one was made.
pub open spec fn pdf_page(p: Page, info: PdfPageInfo, rendered: Option<RenderedPage>, merged: Seq<Element>) -> bool {
    let text = pdf_page_text(merged);
    &&& p.page_number == info.page_number
    &&& p.page_type == PageType::DocumentPage
    &&& match rendered {
        Some(r) => {
            &&& p.width == Some(r.width as i64)
            &&& p.height == Some(r.height as i64)
            &&& p.page_image_asset_id matches Some(a) && a@ == r.asset_id@
        },
        None => p.width.is_none() && p.height.is_none() && p.page_image_asset_id.is_none(),
    }
    &&& p.page_profile.content_mode == page_content_mode(info.content_mode)
    &&& p.page_profile.has_native_text == info.has_native_text
    &&& p.page_profile.has_ocr_required_regions == info.requires_ocr
    &&& !p.page_profile.has_tables
    &&& p.page_profile.has_images == info.has_images
    &&& !p.page_profile.has_formulas && !p.page_profile.has_handwriting
    &&& p.page_profile.language.is_none()
    &&& p.page_profile.confidence_permille == info.confidence_permille
    &&& p.text@ == text
    &&& p.markdown@ == join(present_markdowns(merged), "\n\n"@)
    &&& p.html@.len() == 0
    &&& p.warnings@.len() == 0
    &&& match pipe_table(text) {
        Some(rows) => {
            &&& p.elements@.len() == merged.len() + 1
            &&& p.elements@.take(merged.len() as int) == merged
            &&& pdf_table_element(p.elements@[merged.len() as int], info.page_number as nat, (merged.len() + 1) as nat, rows, text)
        },
        None => p.elements@ == merged,
    }
}

/// A page of a PDF: its merged elements, and a table stub after them where the
/// page's text spells a pipe table; its text and markdown joined from the elements'.
pub fn build_pdf_page(info: &PdfPageInfo, rendered: &Option<RenderedPage>, merged: Vec<Element>) -> (p: Page)
    requires
        merged@.len() + 1 <= u32::MAX,
    ensures
        pdf_page(p, *info, *rendered, merged@),
{
    let ghost ms = merged@;
    let mut texts: Vec<String> = Vec::new();
    let mut mds: Vec<String> = Vec::new();
    let mut i: usize = 0;
    while i < merged.len()
        invariant
            i <= ms.len(),
            ms == merged@,
            views(texts@) == present_texts(ms.take(i as int)),
            views(mds@) == present_markdowns(ms.take(i as int)),
        decreases ms.len() - i,
    {
        proof {
            assert(ms.take(i + 1).drop_last() =~= ms.take(i as int));
            assert(ms.take(i + 1).last() == ms[i as int]);
        }
        let e = &merged[i];
        match &e.text {
            Some(t) => {
                let ghost b = views(texts@);
                texts.push(t.clone());
                assert(views(texts@) =~= b.push(t@));
            },
            None => {},
        }
        match &e.markdown {
            Some(t) => {
                let ghost b = views(mds@);
                mds.push(t.clone());
                assert(views(mds@) =~= b.push(t@));
            },
            None => {},
        }
        i = i + 1;
    }
    assert(ms.take(i as int) =~= ms);
    let page_text = join_strings(&texts, "\n");
    let page_markdown = join_strings(&mds, "\n\n");
    let mut elements = merged;
    match pipe_table_rows(page_text.as_str()) {
        Some(rows) => {
            let order: u32 = (elements.len() + 1) as u32;
            let t = pdf_table_stub(info.page_number, order, &rows, &page_text);
            proof {
                let want = pipe_table(page_text@).unwrap();
                assert(rows@.map_values(|row: Vec<String>| views(row@)) =~= want);
            }
            elements.push(t);
            assert(elements@.take(ms.len() as int) =~= ms);
        },
        None => {},
    }
    let (width, height, image) = match rendered {
        Some(r) => (Some(r.width as i64), Some(r.height as i64), Some(r.asset_id.clone())),
        None => (None, None, None),
    };
    Page {
        page_number: info.page_number,
        page_type: PageType::DocumentPage,
        width,
        height,
        page_image_asset_id: image,
        page_profile: PageProfile {
            content_mode: pdf_page_content_mode(info.content_mode),
            has_native_text: info.has_native_text,
            has_ocr_required_regions: info.requires_ocr,
            has_tables: false,
            has_images: info.has_images,
            has_formulas: false,
            has_handwriting: false,
            language: None,
            confidence_permille: info.confidence_permille,
        },
        elements,
        text: page_text,
        markdown: page_markdown,
        html: String::new(),
        warnings: Vec::new(),
    }
}

/// What rendering a page gave.
pub enum PdfRender {
    /// The page was not to be rendered.
    NotNeeded,
    /// The page's image.
    Rendered(RenderedPage),
    /// Rendering failed, for this reason.
    Failed(String),
}

/// A page of a PDF as it was read: what the classifier said of it, what rendering
/// gave, the elements that merging its native and recognized text kept, and the
/// ids of the recognized elements dropped as duplicates of native text.
pub struct PdfPageRead {
    pub info: PdfPageInfo,
    pub render: PdfRender,
    pub merged: Vec<Element>,
    pub removed_ocr_ids: Vec<String>,
}

/// What reading a PDF gave: why native text extraction failed, if it did; the
/// content mode the classifier gave the document; the warnings that setting up
/// text recognition raised (code and message); whether recognition is enabled and
/// which backend is configured; and the pages in order.
pub struct PdfReading {
    pub native_text_error: Option<String>,
    pub content_mode: ContentMode,
    pub backend_warnings: Vec<(String, String)>,
    pub ocr_enabled: bool,
    pub backend: OcrBackendKind,
    pub pages: Vec<PdfPageRead>,
}

/// Whether the page was to be rendered.
pub open spec fn render_wanted(r: PdfRender) -> bool {
    match r {
        PdfRender::NotNeeded => false,
        _ => true,
    }
}

pub open spec fn rendered_of(r: PdfRender) -> Option<RenderedPage> {
    match r {
        PdfRender::Rendered(p) => Some(p),
        _ => None,
    }
}

pub open spec fn backend_codes(ws: Seq<(String, String)>) -> Seq<Seq<char>> {
    ws.map_values(|w: (String, String)| w.0@)
}

/// The backend that reads the pages (see [`effective_ocr_backend`]).
pub open spec fn reading_backend(r: PdfReading) -> OcrBackendKind {
    if backend_codes(r.backend_warnings@).contains("OCR_BACKEND_FALLBACK_TO_MOCK"@) {
        OcrBackendKind::Mock
    } else {
        r.backend
    }
}

/// How many stages a page adds.
pub open spec fn page_stage_len(pr: PdfPageRead, ocr_enabled: bool, be: OcrBackendKind) -> nat {
    if ocr_runs(pr.info.requires_ocr, ocr_enabled, be) && rendered_of(pr.render).is_some() && be == OcrBackendKind::Onnx {
        7
    } else {
        3
    }
}

pub open spec fn stage_total(pages: Seq<PdfPageRead>, ocr_enabled: bool, be: OcrBackendKind) -> nat
    decreases pages.len(),
{
    if pages.len() == 0 {
        0
    } else {
        stage_total(pages.drop_last(), ocr_enabled, be) + page_stage_len(pages.last(), ocr_enabled, be)
    }
}

/// The pages that failed to render, with the reason.
pub open spec fn render_failures(pages: Seq<PdfPageRead>) -> Seq<(u32, Seq<char>)>
    decreases pages.len(),
{
    if pages.len() == 0 {
        Seq::empty()
    } else {
        let rest = render_failures(pages.drop_last());
        match pages.last().render {
            PdfRender::Failed(e) => rest.push((pages.last().info.page_number, e@)),
            _ => rest,
        }
    }
}

/// The recognized elements dropped as duplicates, with their page.
pub open spec fn duplicate_ids(pages: Seq<PdfPageRead>) -> Seq<(u32, Seq<char>)>
    decreases pages.len(),
{
    if pages.len() == 0 {
        Seq::empty()
    } else {
        let p = pages.last();
        duplicate_ids(pages.drop_last()) + p.removed_ocr_ids@.map_values(|id: String| (p.info.page_number, id@))
    }
}

/// The page images, with their page.
pub open spec fn page_images(pages: Seq<PdfPageRead>) -> Seq<(u32, RenderedPage)>
    decreases pages.len(),
{
    if pages.len() == 0 {
        Seq::empty()
    } else {
        let rest = page_images(pages.drop_last());
        match pages.last().render {
            PdfRender::Rendered(r) => rest.push((pages.last().info.page_number, r)),
            _ => rest,
        }
    }
}

pub open spec fn render_failure_error(d: Diagnostic, page: u32, err: Seq<char>) -> bool {
    &&& d.code@ == "PDF_PAGE_RENDER_FAILED"@
    &&& d.severity@ == "error"@
    &&& d.scope@ == "page"@
    &&& d.page_number == Some(page)
    &&& d.element_id.is_none()
    &&& d.message@ == "failed to render page "@ + decimal(page as nat) + ": "@ + err
    &&& d.recoverable
    &&& d.extra@.len() == 0
}

pub open spec fn duplicate_warning(d: Diagnostic, page: u32, id: Seq<char>) -> bool {
    &&& d.code@ == "OCR_DUPLICATE_REMOVED"@
    &&& d.severity@ == "warning"@
    &&& d.scope@ == "element"@
    &&& d.page_number == Some(page)
    &&& d.element_id matches Some(t) && t@ == id
    &&& d.message@ == "OCR element duplicated native text and was removed."@
    &&& d.recoverable
    &&& d.extra@.len() == 0
}

pub open spec fn backend_warning(d: Diagnostic, w: (String, String)) -> bool {
    &&& d.code@ == w.0@
    &&& d.severity@ == "warning"@
    &&& d.scope@ == "stage"@
    &&& d.page_number.is_none()
    &&& d.element_id.is_none()
    &&& d.message@ == w.1@
    &&& d.recoverable
    &&& d.extra@.len() == 0
}

pub open spec fn page_render_asset(a: Asset, page: u32, r: RenderedPage) -> bool {
    &&& a.asset_id@ == r.asset_id@
    &&& a.asset_type@ == "page_render"@
    &&& a.path@ == r.path@
    &&& a.mime_type@ == r.mime_type@
    &&& a.page_number == Some(page)
    &&& a.width == Some(r.width)
    &&& a.height == Some(r.height)
    &&& a.sha256.is_none()
}

pub open spec fn any_native_text(pages: Seq<PdfPageRead>) -> bool {
    exists|k: int| 0 <= k < pages.len() && (#[trigger] pages[k]).info.has_native_text
}

pub open spec fn any_ocr_required(pages: Seq<PdfPageRead>) -> bool {
    exists|k: int| 0 <= k < pages.len() && (#[trigger] pages[k]).info.requires_ocr
}

/// The sizes that the statistics of the pages come to at most: elements (one
/// table stub a page besides the merged ones), characters and words of the texts.
pub open spec fn reading_size(pages: Seq<PdfPageRead>) -> (nat, nat, nat)
    decreases pages.len(),
{
    if pages.len() == 0 {
        (0, 0, 0)
    } else {
        let r = reading_size(pages.drop_last());
        let p = pages.last();
        let t = pdf_page_text(p.merged@);
        (r.0 + p.merged@.len() + 1, r.1 + t.len(), r.2 + word_count(t))
    }
}

/// The statistics of the document fit their 32-bit counters.
pub open spec fn reading_fits(pages: Seq<PdfPageRead>) -> bool {
    let r = reading_size(pages);
    r.0 <= u32::MAX && r.1 <= u32::MAX && r.2 <= u32::MAX
}

/// `m` is the model of the PDF `classification` read as `r`: its source, profile
/// and pages (see [`pdf_document_core`]) and its errors, warnings, assets and
/// stages (see [`pdf_document_lists`]).
pub open spec fn pdf_document(m: DocumentModel, classification: FileClassification, r: PdfReading, processed_at: Option<String>) -> bool {
    &&& pdf_document_core(m, classification, r, processed_at)
    &&& pdf_document_lists(m, r)
}

/// The source, profile, pages, status and statistics of the model of a PDF.
pub open spec fn pdf_document_core(m: DocumentModel, classification: FileClassification, r: PdfReading, processed_at: Option<String>) -> bool {
    let pages = r.pages@;
    let be = reading_backend(r);
    let ne: int = if r.native_text_error.is_some() { 1 } else { 0 };
    &&& source_identity(m, classification, DocumentFormat::Pdf, processed_at)
    &&& m.document_profile.content_mode == r.content_mode
    &&& m.document_profile.has_native_text == any_native_text(pages)
    &&& m.document_profile.has_ocr_required_regions == any_ocr_required(pages)
    &&& m.coordinate_system.unit@ == "synthetic"@
    &&& m.chunks@.len() == 0
    &&& m.pages@.len() == pages.len()
    &&& forall|k: int|
        0 <= k < pages.len() ==> pdf_page(#[trigger] m.pages@[k], pages[k].info, rendered_of(pages[k].render), pages[k].merged@)
    &&& m.processing.status == (if ne > 0 || render_failures(pages).len() > 0 {
        ProcessingStatus::Partial
    } else {
        ProcessingStatus::Complete
    })
    &&& m.stats == stats_for(m.pages@)
    &&& m.processing.total_duration_ms == Some((2 + stage_total(pages, r.ocr_enabled, be)) as u64)
}

/// The errors (native text, then page renders), warnings (backend, then dropped
/// duplicates), page image assets and stages of the model of a PDF.
pub open spec fn pdf_document_lists(m: DocumentModel, r: PdfReading) -> bool {
    let pages = r.pages@;
    let be = reading_backend(r);
    let fails = render_failures(pages);
    let dups = duplicate_ids(pages);
    let imgs = page_images(pages);
    let ne: int = if r.native_text_error.is_some() { 1 } else { 0 };
    let nb = r.backend_warnings@.len();
    let st = m.processing.stages@;
    &&& m.errors@.len() == ne + fails.len()
    &&& (r.native_text_error matches Some(e) ==> document_notice(
        m.errors@[0],
        "error"@,
        "PDF_NATIVE_TEXT_EXTRACTION_FAILED"@,
        "failed to extract native PDF text: "@ + e@,
    ))
    &&& forall|j: int| 0 <= j < fails.len() ==> render_failure_error(#[trigger] m.errors@[ne + j], fails[j].0, fails[j].1)
    &&& m.warnings@.len() == nb + dups.len()
    &&& forall|j: int| 0 <= j < nb ==> backend_warning(#[trigger] m.warnings@[j], r.backend_warnings@[j])
    &&& forall|j: int| 0 <= j < dups.len() ==> duplicate_warning(#[trigger] m.warnings@[nb + j], dups[j].0, dups[j].1)
    &&& m.assets@.len() == imgs.len()
    &&& forall|j: int| 0 <= j < imgs.len() ==> page_render_asset(#[trigger] m.assets@[j], imgs[j].0, imgs[j].1)
    &&& st.len() == 2 + stage_total(pages, r.ocr_enabled, be)
    &&& is_stage(st[0], "pdf_classification"@, "pdf_page_classifier"@, 1)
    &&& is_stage(st[1], "pdf_native_extraction"@, "pdf_native_extractor"@, 1)
    &&& forall|k: int|
        0 <= k < pages.len() ==> pdf_page_stages(
            st.subrange(
                (2 + stage_total(pages.take(k), r.ocr_enabled, be)) as int,
                (2 + stage_total(pages.take(k + 1), r.ocr_enabled, be)) as int,
            ),
            render_wanted((#[trigger] pages[k]).render),
            rendered_of(pages[k].render).is_some(),
            pages[k].info.requires_ocr,
            r.ocr_enabled,
            be,
        )
}

fn prefixed_text(prefix: &str, s: &String) -> (r: String)
    ensures
        r@ == prefix@ + s@,
{
    let mut v: Vec<char> = Vec::new();
    crate::text::push_str_chars(&mut v, prefix);
    crate::text::push_str_chars(&mut v, s.as_str());
    string_from_chars(v.as_slice())
}

fn render_failure_exec(page: u32, err: &String) -> (d: Diagnostic)
    ensures
        render_failure_error(d, page, err@),
{
    let mut v: Vec<char> = Vec::new();
    crate::text::push_str_chars(&mut v, "failed to render page ");
    crate::text::push_str_chars(&mut v, decimal_string(page as u64).as_str());
    crate::text::push_str_chars(&mut v, ": ");
    crate::text::push_str_chars(&mut v, err.as_str());
    Diagnostic {
        code: to_owned_string("PDF_PAGE_RENDER_FAILED"),
        severity: to_owned_string("error"),
        scope: to_owned_string("page"),
        page_number: Some(page),
        element_id: None,
        message: string_from_chars(v.as_slice()),
        recoverable: true,
        extra: Vec::new(),
    }
}

fn render_asset_exec(page: u32, r: &RenderedPage) -> (a: Asset)
    ensures
        page_render_asset(a, page, *r),
{
    Asset {
        asset_id: r.asset_id.clone(),
        asset_type: to_owned_string("page_render"),
        path: r.path.clone(),
        mime_type: r.mime_type.clone(),
        page_number: Some(page),
        width: Some(r.width),
        height: Some(r.height),
        sha256: None,
    }
}

fn clone_rendered(r: &RenderedPage) -> (c: RenderedPage)
    ensures
        c == *r,
{
    RenderedPage {
        asset_id: r.asset_id.clone(),
        path: r.path.clone(),
        mime_type: r.mime_type.clone(),
        width: r.width,
        height: r.height,
        dpi: r.dpi,
    }
}

proof fn lemma_single_page_plans(p: PdfPageRead)
    ensures
        render_failures(seq![p]) == (match p.render {
            PdfRender::Failed(e) => seq![(p.info.page_number, e@)],
            _ => Seq::<(u32, Seq<char>)>::empty(),
        }),
        page_images(seq![p]) == (match p.render {
            PdfRender::Rendered(r) => seq![(p.info.page_number, r)],
            _ => Seq::<(u32, RenderedPage)>::empty(),
        }),
        duplicate_ids(seq![p]) == p.removed_ocr_ids@.map_values(|id: String| (p.info.page_number, id@)),
{
    let one = seq![p];
    assert(one.drop_last() =~= Seq::<PdfPageRead>::empty());
    assert(one.last() == p);
    assert(render_failures(one.drop_last()) =~= Seq::<(u32, Seq<char>)>::empty());
    assert(page_images(one.drop_last()) =~= Seq::<(u32, RenderedPage)>::empty());
    assert(duplicate_ids(one.drop_last()) =~= Seq::<(u32, Seq<char>)>::empty());
    match p.render {
        PdfRender::Failed(e) => {
            assert(render_failures(one) =~= seq![(p.info.page_number, e@)]);
        },
        PdfRender::Rendered(r) => {
            assert(page_images(one) =~= seq![(p.info.page_number, r)]);
        },
        _ => {},
    }
    assert(duplicate_ids(one) =~= p.removed_ocr_ids@.map_values(|id: String| (p.info.page_number, id@)));
}

/// The errors so far: the native-text one, if any, then a render error for each
/// page of `pages` that failed to render.
#[verifier::opaque]
spec fn errors_ok(er: Seq<Diagnostic>, ne_len: int, e0: Seq<Diagnostic>, pages: Seq<PdfPageRead>) -> bool {
    &&& er.len() == ne_len + render_failures(pages).len()
    &&& forall|j: int| 0 <= j < ne_len ==> #[trigger] er[j] == e0[j]
    &&& forall|j: int|
        0 <= j < render_failures(pages).len() ==> render_failure_error(
            #[trigger] er[ne_len + j],
            render_failures(pages)[j].0,
            render_failures(pages)[j].1,
        )
}

#[verifier::opaque]
spec fn warnings_ok(wr: Seq<Diagnostic>, bw: Seq<(String, String)>, pages: Seq<PdfPageRead>) -> bool {
    &&& wr.len() == bw.len() + duplicate_ids(pages).len()
    &&& forall|j: int| 0 <= j < bw.len() ==> backend_warning(#[trigger] wr[j], bw[j])
    &&& forall|j: int|
        0 <= j < duplicate_ids(pages).len() ==> duplicate_warning(
            #[trigger] wr[bw.len() + j],
            duplicate_ids(pages)[j].0,
            duplicate_ids(pages)[j].1,
        )
}

#[verifier::opaque]
spec fn assets_ok(a: Seq<Asset>, pages: Seq<PdfPageRead>) -> bool {
    &&& a.len() == page_images(pages).len()
    &&& forall|j: int|
        0 <= j < page_images(pages).len() ==> page_render_asset(#[trigger] a[j], page_images(pages)[j].0, page_images(pages)[j].1)
}

/// The stages of page `pr` are those of [`pdf_page_stages`].
#[verifier::opaque]
spec fn page_stages_hold(st: Seq<ProcessingStage>, pr: PdfPageRead, ocr_enabled: bool, be: OcrBackendKind) -> bool {
    pdf_page_stages(st, render_wanted(pr.render), rendered_of(pr.render).is_some(), pr.info.requires_ocr, ocr_enabled, be)
}

#[verifier::opaque]
spec fn stages_ok(sg: Seq<ProcessingStage>, all: Seq<PdfPageRead>, k: int, ocr_enabled: bool, be: OcrBackendKind) -> bool {
    &&& sg.len() == 2 + stage_total(all.take(k), ocr_enabled, be)
    &&& forall|q: int|
        0 <= q < k ==> page_stages_hold(
            sg.subrange(
                (2 + stage_total(all.take(q), ocr_enabled, be)) as int,
                (2 + stage_total(all.take(q + 1), ocr_enabled, be)) as int,
            ),
            #[trigger] all[q],
            ocr_enabled,
            be,
        )
    &&& forall|q: int| 0 <= q <= k ==> stage_total(#[trigger] all.take(q), ocr_enabled, be) <= stage_total(all.take(k), ocr_enabled, be)
}

proof fn lemma_errors_next(
    er0: Seq<Diagnostic>,
    er1: Seq<Diagnostic>,
    ne_len: int,
    e0: Seq<Diagnostic>,
    all: Seq<PdfPageRead>,
    k: int,
)
    requires
        0 <= k < all.len(),
        0 <= ne_len,
        errors_ok(er0, ne_len, e0, all.take(k)),
        er1.len() == er0.len() + render_failures(seq![all[k]]).len(),
        forall|j: int| 0 <= j < er0.len() ==> #[trigger] er1[j] == er0[j],
        forall|j: int|
            0 <= j < render_failures(seq![all[k]]).len() ==> render_failure_error(
                #[trigger] er1[er0.len() + j],
                render_failures(seq![all[k]])[j].0,
                render_failures(seq![all[k]])[j].1,
            ),
    ensures
        errors_ok(er1, ne_len, e0, all.take(k + 1)),
{
    reveal(errors_ok);
    lemma_pdf_plans_step(all, k, false, OcrBackendKind::Disabled);
    let f0 = render_failures(all.take(k));
    let fo = render_failures(seq![all[k]]);
    let f1 = render_failures(all.take(k + 1));
    assert forall|j: int| 0 <= j < ne_len implies #[trigger] er1[j] == e0[j] by {
        assert(er1[j] == er0[j]);
    }
    assert forall|j: int| 0 <= j < f1.len() implies render_failure_error(#[trigger] er1[ne_len + j], f1[j].0, f1[j].1) by {
        if j < f0.len() {
            assert(er1[ne_len + j] == er0[ne_len + j]);
        } else {
            assert(f1[j] == fo[j - f0.len()]);
            assert(er1[er0.len() + (j - f0.len())] == er1[ne_len + j]);
        }
    }
}

proof fn lemma_warnings_next(
    wr0: Seq<Diagnostic>,
    wr1: Seq<Diagnostic>,
    bw: Seq<(String, String)>,
    all: Seq<PdfPageRead>,
    k: int,
)
    requires
        0 <= k < all.len(),
        warnings_ok(wr0, bw, all.take(k)),
        wr1.len() == wr0.len() + duplicate_ids(seq![all[k]]).len(),
        forall|j: int| 0 <= j < wr0.len() ==> #[trigger] wr1[j] == wr0[j],
        forall|j: int|
            0 <= j < duplicate_ids(seq![all[k]]).len() ==> duplicate_warning(
                #[trigger] wr1[wr0.len() + j],
                duplicate_ids(seq![all[k]])[j].0,
                duplicate_ids(seq![all[k]])[j].1,
            ),
    ensures
        warnings_ok(wr1, bw, all.take(k + 1)),
{
    reveal(warnings_ok);
    lemma_pdf_plans_step(all, k, false, OcrBackendKind::Disabled);
    let d0 = duplicate_ids(all.take(k));
    let dn = duplicate_ids(seq![all[k]]);
    let d1 = duplicate_ids(all.take(k + 1));
    let nb = bw.len() as int;
    assert forall|j: int| 0 <= j < nb implies backend_warning(#[trigger] wr1[j], bw[j]) by {
        assert(wr1[j] == wr0[j]);
    }
    assert forall|j: int| 0 <= j < d1.len() implies duplicate_warning(#[trigger] wr1[nb + j], d1[j].0, d1[j].1) by {
        if j < d0.len() {
            assert(wr1[nb + j] == wr0[nb + j]);
        } else {
            assert(d1[j] == dn[j - d0.len()]);
            assert(wr1[wr0.len() + (j - d0.len())] == wr1[nb + j]);
        }
    }
}

proof fn lemma_assets_next(as0: Seq<Asset>, as1: Seq<Asset>, all: Seq<PdfPageRead>, k: int)
    requires
        0 <= k < all.len(),
        assets_ok(as0, all.take(k)),
        as1.len() == as0.len() + page_images(seq![all[k]]).len(),
        forall|j: int| 0 <= j < as0.len() ==> #[trigger] as1[j] == as0[j],
        forall|j: int|
            0 <= j < page_images(seq![all[k]]).len() ==> page_render_asset(
                #[trigger] as1[as0.len() + j],
                page_images(seq![all[k]])[j].0,
                page_images(seq![all[k]])[j].1,
            ),
    ensures
        assets_ok(as1, all.take(k + 1)),
{
    reveal(assets_ok);
    lemma_pdf_plans_step(all, k, false, OcrBackendKind::Disabled);
    let i0 = page_images(all.take(k));
    let io = page_images(seq![all[k]]);
    let i1 = page_images(all.take(k + 1));
    assert forall|j: int| 0 <= j < i1.len() implies page_render_asset(#[trigger] as1[j], i1[j].0, i1[j].1) by {
        if j < i0.len() {
            assert(as1[j] == as0[j]);
        } else {
            assert(i1[j] == io[j - i0.len()]);
            assert(as1[as0.len() + (j - i0.len())] == as1[j]);
        }
    }
}

proof fn lemma_subrange_of_prefix<T>(s0: Seq<T>, s1: Seq<T>, a: int, b: int)
    requires
        0 <= a <= b <= s0.len(),
        s0.len() <= s1.len(),
        s1.subrange(0, s0.len() as int) == s0,
    ensures
        s1.subrange(a, b) == s0.subrange(a, b),
{
    assert forall|x: int| 0 <= x < b - a implies s1.subrange(a, b)[x] == s0.subrange(a, b)[x] by {
        assert(s1.subrange(0, s0.len() as int)[a + x] == s1[a + x]);
    }
    assert(s1.subrange(a, b) =~= s0.subrange(a, b));
}

proof fn lemma_stage_total_step(all: Seq<PdfPageRead>, k: int, ocr_enabled: bool, be: OcrBackendKind)
    requires
        0 <= k < all.len(),
    ensures
        stage_total(all.take(k + 1), ocr_enabled, be) == stage_total(all.take(k), ocr_enabled, be) + page_stage_len(all[k], ocr_enabled, be),
{
    assert(all.take(k + 1).drop_last() =~= all.take(k));
    assert(all.take(k + 1).last() == all[k]);
}

#[verifier::spinoff_prover]
#[verifier::rlimit(100)]
proof fn lemma_stages_next(sg0: Seq<ProcessingStage>, sg1: Seq<ProcessingStage>, all: Seq<PdfPageRead>, k: int, ocr_enabled: bool, be: OcrBackendKind)
    requires
        0 <= k < all.len(),
        stages_ok(sg0, all, k, ocr_enabled, be),
        sg1.len() == sg0.len() + page_stage_len(all[k], ocr_enabled, be),
        sg1.subrange(0, sg0.len() as int) == sg0,
        page_stages_hold(sg1.subrange(sg0.len() as int, sg1.len() as int), all[k], ocr_enabled, be),
    ensures
        stages_ok(sg1, all, k + 1, ocr_enabled, be),
        sg1.subrange(0, 2) == sg0.subrange(0, 2),
{
    reveal(stages_ok);
    lemma_stage_total_step(all, k, ocr_enabled, be);
    lemma_subrange_of_prefix(sg0, sg1, 0, 2);
    assert forall|q: int| 0 <= q <= k + 1 implies stage_total(#[trigger] all.take(q), ocr_enabled, be) <= stage_total(all.take(k + 1), ocr_enabled, be) by {
        if q <= k {
            assert(stage_total(all.take(q), ocr_enabled, be) <= stage_total(all.take(k), ocr_enabled, be));
        }
    }
    assert forall|q: int| 0 <= q < k + 1 implies page_stages_hold(
        sg1.subrange(
            (2 + stage_total(all.take(q), ocr_enabled, be)) as int,
            (2 + stage_total(all.take(q + 1), ocr_enabled, be)) as int,
        ),
        #[trigger] all[q],
        ocr_enabled,
        be,
    ) by {
        let a: int = (2 + stage_total(all.take(q), ocr_enabled, be)) as int;
        let b: int = (2 + stage_total(all.take(q + 1), ocr_enabled, be)) as int;
        if q < k {
            lemma_stage_total_step(all, q, ocr_enabled, be);
            assert(stage_total(all.take(q + 1), ocr_enabled, be) <= stage_total(all.take(k), ocr_enabled, be));
            lemma_subrange_of_prefix(sg0, sg1, a, b);
        } else {
            assert(a == sg0.len() && b == sg1.len());
        }
    }
}

/// Reads one page into the model's lists: its render error or image, its stages,
/// its duplicate warnings; returns the page and whether rendering failed.
#[verifier::spinoff_prover]
#[verifier::rlimit(40)]
fn read_pdf_page(
    pr: PdfPageRead,
    ocr_enabled: bool,
    be: OcrBackendKind,
    errors: &mut Vec<Diagnostic>,
    warnings: &mut Vec<Diagnostic>,
    assets: &mut Vec<Asset>,
    stages: &mut Vec<ProcessingStage>,
) -> (r: (Page, bool))
    requires
        pr.merged@.len() + 1 <= u32::MAX,
    ensures
        pdf_page(r.0, pr.info, rendered_of(pr.render), pr.merged@),
        r.1 == (pr.render is Failed),
        ({
            let fails = render_failures(seq![pr]);
            &&& final(errors)@.len() == old(errors)@.len() + fails.len()
            &&& forall|j: int| 0 <= j < old(errors)@.len() ==> #[trigger] final(errors)@[j] == old(errors)@[j]
            &&& forall|j: int|
                0 <= j < fails.len() ==> render_failure_error(#[trigger] final(errors)@[old(errors)@.len() + j], fails[j].0, fails[j].1)
        }),
        ({
            let dups = duplicate_ids(seq![pr]);
            &&& final(warnings)@.len() == old(warnings)@.len() + dups.len()
            &&& forall|j: int| 0 <= j < old(warnings)@.len() ==> #[trigger] final(warnings)@[j] == old(warnings)@[j]
            &&& forall|j: int|
                0 <= j < dups.len() ==> duplicate_warning(#[trigger] final(warnings)@[old(warnings)@.len() + j], dups[j].0, dups[j].1)
        }),
        ({
            let imgs = page_images(seq![pr]);
            &&& final(assets)@.len() == old(assets)@.len() + imgs.len()
            &&& forall|j: int| 0 <= j < old(assets)@.len() ==> #[trigger] final(assets)@[j] == old(assets)@[j]
            &&& forall|j: int|
                0 <= j < imgs.len() ==> page_render_asset(#[trigger] final(assets)@[old(assets)@.len() + j], imgs[j].0, imgs[j].1)
        }),
        final(stages)@.len() == old(stages)@.len() + page_stage_len(pr, ocr_enabled, be),
        final(stages)@.subrange(0, old(stages)@.len() as int) == old(stages)@,
        pdf_page_stages(
            final(stages)@.subrange(old(stages)@.len() as int, final(stages)@.len() as int),
            render_wanted(pr.render),
            rendered_of(pr.render).is_some(),
            pr.info.requires_ocr,
            ocr_enabled,
            be,
        ),
{
    let ghost p0 = pr;
    let PdfPageRead { info, render, merged, removed_ocr_ids } = pr;
    let n = info.page_number;
    let mut rendered: Option<RenderedPage> = None;
    let mut failed = false;
    let render_needed = match &render {
        PdfRender::NotNeeded => false,
        _ => true,
    };
    match &render {
        PdfRender::NotNeeded => {},
        PdfRender::Rendered(r) => {
            assets.push(render_asset_exec(n, r));
            rendered = Some(clone_rendered(r));
        },
        PdfRender::Failed(e) => {
            errors.push(render_failure_exec(n, e));
            failed = true;
        },
    }
    proof {
        lemma_single_page_plans(p0);
    }
    let ghost s0 = stages@;
    let page_stages = pdf_page_stage_list(render_needed, rendered.is_some(), info.requires_ocr, ocr_enabled, be);
    let ghost ps = page_stages@;
    let mut list = page_stages;
    let mut i: usize = 0;
    assert(ps.len() == list.len());
    while list.len() > 0
        invariant
            i + list@.len() == ps.len(),
            ps.len() <= 7,
            list@ == ps.skip(i as int),
            stages@.len() == s0.len() + i,
            stages@.subrange(0, s0.len() as int) == s0,
            stages@.subrange(s0.len() as int, stages@.len() as int) == ps.take(i as int),
        decreases list@.len(),
    {
        assert(ps.skip(i as int)[0] == ps[i as int]);
        let st = list.remove(0);
        let ghost before = stages@;
        stages.push(st);
        i = i + 1;
        proof {
            assert(ps.skip(i as int) =~= ps.skip(i - 1).drop_first());
            assert(stages@.subrange(0, s0.len() as int) =~= before.subrange(0, s0.len() as int));
            assert(stages@.subrange(s0.len() as int, stages@.len() as int) =~= ps.take(i as int));
        }
    }
    assert(ps.take(i as int) =~= ps);
    let ghost w0 = warnings@;
    let dup = ocr_duplicate_warnings(n, &removed_ocr_ids);
    let mut dup = dup;
    let ghost dv = dup@;
    let mut i: usize = 0;
    assert(dv.len() == dup.len());
    while dup.len() > 0
        invariant
            i + dup@.len() == dv.len(),
            dv.len() <= usize::MAX,
            dv.len() == removed_ocr_ids@.len(),
            dup@ == dv.skip(i as int),
            warnings@.len() == w0.len() + i,
            forall|j: int| 0 <= j < w0.len() ==> #[trigger] warnings@[j] == w0[j],
            forall|j: int| 0 <= j < i ==> #[trigger] warnings@[w0.len() + j] == dv[j],
        decreases dup@.len(),
    {
        assert(dv.skip(i as int)[0] == dv[i as int]);
        let d = dup.remove(0);
        warnings.push(d);
        i = i + 1;
        assert(dv.skip(i as int) =~= dv.skip(i - 1).drop_first());
    }
    proof {
        let dups = duplicate_ids(seq![p0]);
        assert forall|j: int| 0 <= j < dups.len() implies duplicate_warning(#[trigger] warnings@[w0.len() + j], dups[j].0, dups[j].1) by {
            assert(warnings@[w0.len() + j] == dv[j]);
        }
    }
    let page = build_pdf_page(&info, &rendered, merged);
    (page, failed)
}

proof fn lemma_pdf_plans_step(pages: Seq<PdfPageRead>, k: int, ocr_enabled: bool, be: OcrBackendKind)
    requires
        0 <= k < pages.len(),
    ensures
        render_failures(pages.take(k + 1)) == render_failures(pages.take(k)) + render_failures(seq![pages[k]]),
        duplicate_ids(pages.take(k + 1)) == duplicate_ids(pages.take(k)) + duplicate_ids(seq![pages[k]]),
        page_images(pages.take(k + 1)) == page_images(pages.take(k)) + page_images(seq![pages[k]]),
        stage_total(pages.take(k + 1), ocr_enabled, be) == stage_total(pages.take(k), ocr_enabled, be) + page_stage_len(
            pages[k],
            ocr_enabled,
            be,
        ),
        reading_size(pages.take(k + 1)).0 == reading_size(pages.take(k)).0 + pages[k].merged@.len() + 1,
{
    let t = pages.take(k + 1);
    assert(t.drop_last() =~= pages.take(k));
    assert(t.last() == pages[k]);
    let one = seq![pages[k]];
    assert(one.drop_last() =~= Seq::<PdfPageRead>::empty());
    assert(one.last() == pages[k]);
    assert(render_failures(Seq::<PdfPageRead>::empty()) =~= Seq::<(u32, Seq<char>)>::empty());
    assert(duplicate_ids(Seq::<PdfPageRead>::empty()) =~= Seq::<(u32, Seq<char>)>::empty());
    assert(page_images(Seq::<PdfPageRead>::empty()) =~= Seq::<(u32, RenderedPage)>::empty());
    assert(render_failures(t) =~= render_failures(pages.take(k)) + render_failures(one));
    assert(duplicate_ids(t) =~= duplicate_ids(pages.take(k)) + duplicate_ids(one));
    assert(page_images(t) =~= page_images(pages.take(k)) + page_images(one));
}

proof fn lemma_size_prefix(pages: Seq<PdfPageRead>, i: int)
    requires
        0 <= i <= pages.len(),
    ensures
        reading_size(pages.take(i)).0 <= reading_size(pages).0,
    decreases pages.len() - i,
{
    if i < pages.len() {
        lemma_size_prefix(pages.drop_last(), i);
        assert(pages.drop_last().take(i) =~= pages.take(i));
    } else {
        assert(pages.take(i) =~= pages);
    }
}

proof fn lemma_pdf_counts(built: Seq<Page>, pages: Seq<PdfPageRead>)
    requires
        built.len() == pages.len(),
        forall|k: int| 0 <= k < pages.len() ==> pdf_page(#[trigger] built[k], pages[k].info, rendered_of(pages[k].render), pages[k].merged@),
    ensures
        count_pages(built).elements <= reading_size(pages).0,
        count_pages(built).chars == reading_size(pages).1,
        count_pages(built).words == reading_size(pages).2,
    decreases pages.len(),
{
    if pages.len() > 0 {
        let n = pages.len() - 1;
        assert forall|k: int| 0 <= k < n implies pdf_page(#[trigger] built.drop_last()[k], pages.drop_last()[k].info, rendered_of(pages.drop_last()[k].render), pages.drop_last()[k].merged@) by {
            assert(built.drop_last()[k] == built[k]);
            assert(pages.drop_last()[k] == pages[k]);
        }
        lemma_pdf_counts(built.drop_last(), pages.drop_last());
        crate::extractors::lemma_count_pages_bounded(built.drop_last());
        let c = count_pages(built.drop_last());
        let p = built.last();
        assert(pdf_page(built[n], pages[n].info, rendered_of(pages[n].render), pages[n].merged@));
        lemma_count_elements_grows(
            StatsCount { chars: c.chars + p.text@.len(), words: c.words + word_count(p.text@), ..c },
            p.elements@,
        );
    }
}

/// The skeleton of a PDF model before its pages are read.
fn pdf_prelude(
    classification: &FileClassification,
    native_text_error: &Option<String>,
    content_mode: ContentMode,
    pages: &Vec<PdfPageRead>,
    processed_at: Option<String>,
) -> (m: DocumentModel)
    requires
        classification.input_path@.len() < 0x7fff_ffff_ffff_ffff,
    ensures
        source_identity(m, *classification, DocumentFormat::Pdf, processed_at),
        m.document_profile.content_mode == content_mode,
        m.document_profile.has_native_text == any_native_text(pages@),
        m.document_profile.has_ocr_required_regions == any_ocr_required(pages@),
        m.coordinate_system.unit@ == "synthetic"@,
        m.chunks@.len() == 0,
        m.pages@.len() == 0,
        m.assets@.len() == 0,
        m.warnings@.len() == 0,
        m.errors@.len() == (if native_text_error.is_some() { 1int } else { 0int }),
        native_text_error matches Some(e) ==> document_notice(
            m.errors@[0],
            "error"@,
            "PDF_NATIVE_TEXT_EXTRACTION_FAILED"@,
            "failed to extract native PDF text: "@ + e@,
        ),
        m.processing.status == (if native_text_error.is_some() {
            ProcessingStatus::Partial
        } else {
            ProcessingStatus::Complete
        }),
        m.processing.stages@.len() == 2,
        is_stage(m.processing.stages@[0], "pdf_classification"@, "pdf_page_classifier"@, 1),
        is_stage(m.processing.stages@[1], "pdf_native_extraction"@, "pdf_native_extractor"@, 1),
{
    let mut m = base_document_model(classification, DocumentFormat::Pdf, ContentMode::Digital, PageType::DocumentPage, processed_at);
    m.coordinate_system.unit = to_owned_string("synthetic");
    m.pages = Vec::new();
    match native_text_error {
        Some(e) => {
            m.errors.push(
                diagnostic(
                    "PDF_NATIVE_TEXT_EXTRACTION_FAILED",
                    "error",
                    "document",
                    prefixed_text("failed to extract native PDF text: ", e).as_str(),
                ),
            );
            m.processing.status = ProcessingStatus::Partial;
        },
        None => {},
    }
    m.document_profile.content_mode = content_mode;
    let ghost all = pages@;
    let mut any_native = false;
    let mut any_ocr = false;
    let mut i: usize = 0;
    while i < pages.len()
        invariant
            i <= all.len(),
            all == pages@,
            any_native == exists|k: int| 0 <= k < i && (#[trigger] all[k]).info.has_native_text,
            any_ocr == exists|k: int| 0 <= k < i && (#[trigger] all[k]).info.requires_ocr,
        decreases all.len() - i,
    {
        if pages[i].info.has_native_text {
            any_native = true;
        }
        if pages[i].info.requires_ocr {
            any_ocr = true;
        }
        i = i + 1;
    }
    m.document_profile.has_native_text = any_native;
    m.document_profile.has_ocr_required_regions = any_ocr;
    m.processing.stages.push(stage("pdf_classification", "pdf_page_classifier", 1));
    m.processing.stages.push(stage("pdf_native_extraction", "pdf_native_extractor", 1));
    m
}

fn backend_code_list(bws: &Vec<(String, String)>) -> (codes: Vec<String>)
    ensures
        views(codes@) == backend_codes(bws@),
{
    let mut codes: Vec<String> = Vec::new();
    let mut i: usize = 0;
    while i < bws.len()
        invariant
            i <= bws@.len(),
            views(codes@) == backend_codes(bws@).take(i as int),
        decreases bws@.len() - i,
    {
        let ghost b = views(codes@);
        codes.push(bws[i].0.clone());
        proof {
            assert(views(codes@) =~= b.push(bws@[i as int].0@));
            assert(backend_codes(bws@).take(i + 1) =~= backend_codes(bws@).take(i as int).push(bws@[i as int].0@));
        }
        i = i + 1;
    }
    assert(backend_codes(bws@).take(i as int) =~= backend_codes(bws@));
    codes
}

fn backend_diagnostics(bws: Vec<(String, String)>) -> (ws: Vec<Diagnostic>)
    ensures
        ws@.len() == bws@.len(),
        forall|j: int| 0 <= j < bws@.len() ==> backend_warning(#[trigger] ws@[j], bws@[j]),
{
    let ghost bw = bws@;
    let mut bws = bws;
    let mut i: usize = 0;
    let mut warnings: Vec<Diagnostic> = Vec::new();
    assert(bw.len() == bws.len());
    while bws.len() > 0
        invariant
            i + bws@.len() == bw.len(),
            bw.len() <= usize::MAX,
            bws@ == bw.skip(i as int),
            warnings@.len() == i,
            forall|j: int| 0 <= j < i ==> backend_warning(#[trigger] warnings@[j], bw[j]),
        decreases bws@.len(),
    {
        assert(bw.skip(i as int)[0] == bw[i as int]);
        let (code, message) = bws.remove(0);
        warnings.push(diagnostic(code.as_str(), "warning", "stage", message.as_str()));
        i = i + 1;
        assert(bw.skip(i as int) =~= bw.skip(i - 1).drop_first());
    }
    warnings
}

#[verifier::spinoff_prover]
#[verifier::rlimit(100)]
fn read_pdf_pages(
    pages: Vec<PdfPageRead>,
    ocr_enabled: bool,
    be: OcrBackendKind,
    errors: &mut Vec<Diagnostic>,
    warnings: &mut Vec<Diagnostic>,
    assets: &mut Vec<Asset>,
    stages: &mut Vec<ProcessingStage>,
    Ghost(ne_len): Ghost<int>,
    Ghost(e0): Ghost<Seq<Diagnostic>>,
    Ghost(bw): Ghost<Seq<(String, String)>>,
) -> (r: (Vec<Page>, bool))
    requires
        0 <= ne_len,
        reading_fits(pages@),
        errors_ok(old(errors)@, ne_len, e0, Seq::empty()),
        warnings_ok(old(warnings)@, bw, Seq::empty()),
        assets_ok(old(assets)@, Seq::empty()),
        stages_ok(old(stages)@, pages@, 0, ocr_enabled, be),
    ensures
        r.0@.len() == pages@.len(),
        forall|j: int|
            0 <= j < pages@.len() ==> pdf_page(#[trigger] r.0@[j], pages@[j].info, rendered_of(pages@[j].render), pages@[j].merged@),
        r.1 == (render_failures(pages@).len() > 0),
        errors_ok(final(errors)@, ne_len, e0, pages@),
        warnings_ok(final(warnings)@, bw, pages@),
        assets_ok(final(assets)@, pages@),
        stages_ok(final(stages)@, pages@, pages@.len() as int, ocr_enabled, be),
        final(stages)@.subrange(0, 2) == old(stages)@.subrange(0, 2),
{
    let ghost all = pages@;
    let ghost st0 = stages@.subrange(0, 2);
    let mut built: Vec<Page> = Vec::new();
    let mut partial = false;
    let mut rest = pages;
    let mut k: usize = 0;
    assert(all.len() == rest.len());
    assert(all.take(0) =~= Seq::<PdfPageRead>::empty());
    assert(render_failures(Seq::<PdfPageRead>::empty()).len() == 0);
    while rest.len() > 0
        invariant
            k + rest@.len() == all.len(),
            all.len() <= usize::MAX,
            rest@ == all.skip(k as int),
            reading_fits(all),
            0 <= ne_len,
            built@.len() == k,
            forall|j: int| 0 <= j < k ==> pdf_page(#[trigger] built@[j], all[j].info, rendered_of(all[j].render), all[j].merged@),
            errors_ok(errors@, ne_len, e0, all.take(k as int)),
            warnings_ok(warnings@, bw, all.take(k as int)),
            assets_ok(assets@, all.take(k as int)),
            partial == (render_failures(all.take(k as int)).len() > 0),
            stages_ok(stages@, all, k as int, ocr_enabled, be),
            stages@.subrange(0, 2) == st0,
        decreases rest@.len(),
    {
        proof {
            lemma_pdf_plans_step(all, k as int, ocr_enabled, be);
            lemma_size_prefix(all, k + 1);
            assert(all.skip(k as int)[0] == all[k as int]);
        }
        let pr = rest.remove(0);
        let ghost p = pr;
        let ghost (er0, wr0, as0, sg0) = (errors@, warnings@, assets@, stages@);
        let (page, failed) = read_pdf_page(pr, ocr_enabled, be, errors, warnings, assets, stages);
        built.push(page);
        if failed {
            partial = true;
        }
        proof {
            assert(p == all[k as int]);
            lemma_single_page_plans(p);
            lemma_errors_next(er0, errors@, ne_len, e0, all, k as int);
            lemma_warnings_next(wr0, warnings@, bw, all, k as int);
            lemma_assets_next(as0, assets@, all, k as int);
            assert(page_stages_hold(stages@.subrange(sg0.len() as int, stages@.len() as int), all[k as int], ocr_enabled, be)) by {
                reveal(page_stages_hold);
            }
            lemma_stages_next(sg0, stages@, all, k as int, ocr_enabled, be);
            assert forall|j: int| 0 <= j < k + 1 implies pdf_page(#[trigger] built@[j], all[j].info, rendered_of(all[j].render), all[j].merged@) by {}
        }
        k = k + 1;
        proof {
            assert(all.skip(k as int) =~= all.skip(k - 1).drop_first());
        }
    }
    assert(all.take(k as int) =~= all);
    (built, partial)
}

proof fn lemma_pdf_lists(m: DocumentModel, r: PdfReading, ne_len: int, e0: Seq<Diagnostic>, st0: Seq<ProcessingStage>)
    requires
        ne_len == (if r.native_text_error.is_some() { 1int } else { 0int }),
        r.native_text_error matches Some(e) ==> document_notice(
            e0[0],
            "error"@,
            "PDF_NATIVE_TEXT_EXTRACTION_FAILED"@,
            "failed to extract native PDF text: "@ + e@,
        ),
        errors_ok(m.errors@, ne_len, e0, r.pages@),
        warnings_ok(m.warnings@, r.backend_warnings@, r.pages@),
        assets_ok(m.assets@, r.pages@),
        stages_ok(m.processing.stages@, r.pages@, r.pages@.len() as int, r.ocr_enabled, reading_backend(r)),
        m.processing.stages@.subrange(0, 2) == st0,
        st0.len() == 2,
        is_stage(st0[0], "pdf_classification"@, "pdf_page_classifier"@, 1),
        is_stage(st0[1], "pdf_native_extraction"@, "pdf_native_extractor"@, 1),
    ensures
        pdf_document_lists(m, r),
{
    reveal(errors_ok);
    reveal(warnings_ok);
    reveal(assets_ok);
    reveal(stages_ok);
    reveal(page_stages_hold);
    let pages = r.pages@;
    assert(pages.take(pages.len() as int) =~= pages);
    let st = m.processing.stages@;
    assert(st.subrange(0, 2)[0] == st[0]);
    assert(st.subrange(0, 2)[1] == st[1]);
    if ne_len > 0 {
        assert(m.errors@[0] == e0[0]);
    }
}

/// The model of a PDF from what reading it gave: the profile from the classifier
/// (native text and recognition needs as any page has them); an error where native
/// text could not be extracted; the warnings of setting up recognition; then page
/// by page the rendered image as an asset (or a render error), the page's stages,
/// a warning for each recognized element dropped as a duplicate, and the page
/// itself (see [`build_pdf_page`]). The model is partial when native text or a page
/// render failed.
#[verifier::spinoff_prover]
#[verifier::rlimit(100)]
pub fn build_pdf_document(classification: &FileClassification, reading: PdfReading, processed_at: Option<String>) -> (m: DocumentModel)
    requires
        classification.input_path@.len() < 0x7fff_ffff_ffff_ffff,
        reading_fits(reading.pages@),
    ensures
        pdf_document(m, *classification, reading, processed_at),
{
    let ghost r0 = reading;
    let ghost all = reading.pages@;
    let PdfReading { native_text_error, content_mode, backend_warnings, ocr_enabled, backend, pages } = reading;
    let mut m = pdf_prelude(classification, &native_text_error, content_mode, &pages, processed_at);
    let codes = backend_code_list(&backend_warnings);
    let be = effective_ocr_backend(backend, &codes);
    assert(be == reading_backend(r0));
    let ghost bw = backend_warnings@;
    let mut warnings = backend_diagnostics(backend_warnings);
    let ghost e0 = m.errors@;
    let ghost ne_len: int = if native_text_error.is_some() { 1 } else { 0 };
    let mut errors: Vec<Diagnostic> = Vec::new();
    std::mem::swap(&mut errors, &mut m.errors);
    let mut assets: Vec<Asset> = Vec::new();
    let mut stages: Vec<ProcessingStage> = Vec::new();
    std::mem::swap(&mut stages, &mut m.processing.stages);
    let ghost st0 = stages@;
    assert(errors_ok(errors@, ne_len, e0, Seq::empty())) by {
        reveal(errors_ok);
        assert(render_failures(Seq::<PdfPageRead>::empty()).len() == 0);
    }
    assert(warnings_ok(warnings@, bw, Seq::empty())) by {
        reveal(warnings_ok);
        assert(duplicate_ids(Seq::<PdfPageRead>::empty()).len() == 0);
    }
    assert(assets_ok(assets@, Seq::empty())) by {
        reveal(assets_ok);
        assert(page_images(Seq::<PdfPageRead>::empty()).len() == 0);
    }
    assert(stages_ok(stages@, all, 0, ocr_enabled, be)) by {
        reveal(stages_ok);
        assert(all.take(0) =~= Seq::<PdfPageRead>::empty());
    }
    assert(st0.subrange(0, 2) =~= st0);
    let (built, failed) = read_pdf_pages(
        pages,
        ocr_enabled,
        be,
        &mut errors,
        &mut warnings,
        &mut assets,
        &mut stages,
        Ghost(ne_len),
        Ghost(e0),
        Ghost(bw),
    );
    proof {
        lemma_pdf_counts(built@, all);
    }
    m.pages = built;
    m.errors = errors;
    m.warnings = warnings;
    m.assets = assets;
    m.processing.stages = stages;
    if failed {
        m.processing.status = ProcessingStatus::Partial;
    }
    update_stats(&mut m);
    m.processing.total_duration_ms = Some(m.processing.stages.len() as u64);
    proof {
        lemma_pdf_lists(m, r0, ne_len, e0, st0);
    }
    m
}

} // verus!
