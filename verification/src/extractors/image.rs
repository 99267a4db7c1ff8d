//! Images: the page image element that stands for the picture itself.

use vstd::prelude::*;
use crate::classifier::FileClassification;
use crate::extractors::pdf::{
    effective_ocr_backend, ocr_tool, ocr_tool_name, present_markdowns, present_texts, OcrBackendKind,
};
use crate::extractors::rtf::is_stage;
use crate::extractors::{
    base_document_model, count_elements, count_pages, diagnostic, document_notice,
    lemma_count_elements_grows, provenance, source_identity, stage, stats_for, update_stats,
    word_count, zero_count, StatsCount,
};
use crate::model::{
    Asset, BBox, ContentMode, Diagnostic, DocumentFormat, DocumentModel, Element, ElementType, PageType,
    ProcessingStatus,
};
use crate::text::{join, join_strings, push_str_chars, string_from_chars, to_owned_string, views};

verus! {

/// The extractor of images.
pub struct ImageExtractor;

impl ImageExtractor {
    pub fn name(&self) -> (s: &'static str)
        ensures
            s@ == "image_extractor"@,
    {
        "image_extractor"
    }
}

/// The element that shows a whole image of `width` by `height` pixels, stored as
/// the asset `asset_id` at `asset_path`: the first element of the page, covering
/// it, with an empty text and the markdown `![image](<path>)`.
/// `e` shows the whole image of `width` by `height` pixels stored as the asset
/// `asset_id` at `asset_path` (see [`page_image_element`]).
pub open spec fn page_image(e: Element, width: u32, height: u32, asset_id: Seq<char>, asset_path: Seq<char>) -> bool {
    &&& e.element_id@ == "p1_e1"@
    &&& e.element_type == ElementType::Image
    &&& e.tag.is_some() && e.tag.unwrap()@ == "img"@
    &&& e.role.is_some() && e.role.unwrap()@ == "page_image"@
    &&& e.reading_order == Some(1u32)
    &&& e.global_order == Some(1u32)
    &&& e.bbox == Some(BBox { x0: 0, y0: 0, x1: width as i64, y1: height as i64 })
    &&& e.text.is_some() && e.text.unwrap()@.len() == 0
    &&& e.markdown.is_some() && e.markdown.unwrap()@ == "![image]("@ + asset_path + ")"@
    &&& e.html.is_none()
    &&& e.normalized_text.is_some() && e.normalized_text.unwrap()@.len() == 0
    &&& e.raw.is_none()
    &&& e.provenance.method@ == "native"@
    &&& e.provenance.tool@ == "image_decoder"@
    &&& e.provenance.stage@ == "image_native"@
    &&& e.provenance.source_kind.is_some() && e.provenance.source_kind.unwrap()@ == "path"@
    &&& e.provenance.source_value.is_some() && e.provenance.source_value.unwrap()@ == "source_image"@
    &&& e.confidence_permille == 990
    &&& e.warnings@.len() == 0
    &&& e.extra@.len() == 1
    &&& e.extra@[0].0@ == "asset_id"@
    &&& e.extra@[0].1@ == asset_id
}

pub fn page_image_element(width: u32, height: u32, asset_id: &str, asset_path: &str) -> (e: Element)
    ensures
        page_image(e, width, height, asset_id@, asset_path@),
{
    let mut md: Vec<char> = Vec::new();
    push_str_chars(&mut md, "![image](");
    push_str_chars(&mut md, asset_path);
    push_str_chars(&mut md, ")");
    let mut extra: Vec<(String, String)> = Vec::new();
    extra.push((to_owned_string("asset_id"), to_owned_string(asset_id)));
    Element {
        element_id: to_owned_string("p1_e1"),
        element_type: ElementType::Image,
        tag: Some(to_owned_string("img")),
        role: Some(to_owned_string("page_image")),
        reading_order: Some(1),
        global_order: Some(1),
        bbox: Some(BBox { x0: 0, y0: 0, x1: width as i64, y1: height as i64 }),
        text: Some(String::new()),
        markdown: Some(string_from_chars(md.as_slice())),
        html: None,
        normalized_text: Some(String::new()),
        raw: None,
        items: Vec::new(),
        exclude_from_chunks: false,
        table_linearized: Vec::new(),
        provenance: provenance("image_decoder", "image_native", "path", "source_image"),
        confidence_permille: crate::extractors::default_confidence(),
        warnings: Vec::new(),
        extra,
    }
}

/// Whether text is recognized on an image: recognition is enabled and its backend
/// is not the disabled one.
pub fn image_ocr_enabled(enabled: bool, backend: OcrBackendKind) -> (r: bool)
    ensures
        r == (enabled && backend != OcrBackendKind::Disabled),
{
    enabled && backend != OcrBackendKind::Disabled
}

/// What text recognition did with an image.
pub enum ImageOcr {
    /// Recognition is off (see [`image_ocr_enabled`]).
    Disabled,
    /// Recognition ran: the warnings that setting up its backend raised (code and
    /// message), the configured backend, and the elements it recognized.
    Ran { backend_warnings: Vec<(String, String)>, backend: OcrBackendKind, elements: Vec<Element> },
}

/// The recognized elements.
pub open spec fn ocr_elements(o: ImageOcr) -> Seq<Element> {
    match o {
        ImageOcr::Ran { elements, .. } => elements@,
        ImageOcr::Disabled => Seq::empty(),
    }
}

/// The text of the image: its recognized texts, one a line.
pub open spec fn image_text(o: ImageOcr) -> Seq<char> {
    join(present_texts(ocr_elements(o)), "\n"@)
}

/// The statistics of the image's page fit their 32-bit counters.
pub open spec fn image_fits(o: ImageOcr) -> bool {
    &&& ocr_elements(o).len() + 1 <= u32::MAX
    &&& image_text(o).len() <= u32::MAX
    &&& word_count(image_text(o)) <= u32::MAX
}

/// The backend that ran (the mock one after a fallback warning).
pub open spec fn image_backend(warnings: Seq<(String, String)>, configured: OcrBackendKind) -> OcrBackendKind {
    if warnings.map_values(|w: (String, String)| w.0@).contains("OCR_BACKEND_FALLBACK_TO_MOCK"@) {
        OcrBackendKind::Mock
    } else {
        configured
    }
}

/// `m` is the model of the image `classification` of `width` by `height` pixels,
/// stored as `asset`, with what recognition did.
pub open spec fn image_document(
    m: DocumentModel,
    classification: FileClassification,
    width: u32,
    height: u32,
    asset: Asset,
    ocr: ImageOcr,
    processed_at: Option<String>,
) -> bool {
    let es = m.pages@[0].elements@;
    let st = m.processing.stages@;
    &&& source_identity(m, classification, DocumentFormat::Image, processed_at)
    &&& m.document_profile.content_mode == ContentMode::Image
    &&& !m.document_profile.has_native_text
    &&& m.document_profile.has_images
    &&& m.document_profile.has_ocr_required_regions
    &&& m.coordinate_system.unit@ == "px"@
    &&& m.assets@.len() == 1
    &&& m.assets@[0] == (Asset { width: Some(width), height: Some(height), ..asset })
    &&& m.pages@.len() == 1
    &&& m.pages@[0].page_number == 1
    &&& m.pages@[0].page_type == PageType::Image
    &&& m.pages@[0].width == Some(width as i64)
    &&& m.pages@[0].height == Some(height as i64)
    &&& m.pages@[0].page_image_asset_id matches Some(a) && a@ == asset.asset_id@
    &&& m.pages@[0].page_profile.content_mode == ContentMode::Image
    &&& !m.pages@[0].page_profile.has_native_text
    &&& m.pages@[0].page_profile.has_images
    &&& m.pages@[0].page_profile.has_ocr_required_regions
    &&& es.len() == ocr_elements(ocr).len() + 1
    &&& page_image(es[0], width, height, asset.asset_id@, asset.path@)
    &&& es.skip(1) == ocr_elements(ocr)
    &&& m.pages@[0].text@ == image_text(ocr)
    &&& m.pages@[0].markdown@ == join(present_markdowns(es), "\n\n"@)
    &&& m.pages@[0].html@.len() == 0
    &&& m.errors@.len() == 0
    &&& m.processing.status == ProcessingStatus::Complete
    &&& is_stage(st[0], "image_decode"@, "image"@, 1)
    &&& match ocr {
        ImageOcr::Disabled => {
            &&& st.len() == 1
            &&& m.warnings@.len() == 1
            &&& document_notice(m.warnings@[0], "warning"@, "OCR_DISABLED"@, "OCR disabled in config; image text extraction skipped"@)
        },
        ImageOcr::Ran { backend_warnings, backend, .. } => {
            let be = image_backend(backend_warnings@, backend);
            &&& m.warnings@.len() == backend_warnings@.len()
            &&& forall|j: int|
                0 <= j < backend_warnings@.len() ==> {
                    let d = #[trigger] m.warnings@[j];
                    &&& d.code@ == backend_warnings@[j].0@
                    &&& d.severity@ == "warning"@
                    &&& d.scope@ == "stage"@
                    &&& d.page_number == Some(1u32)
                    &&& d.element_id.is_none()
                    &&& d.message@ == backend_warnings@[j].1@
                    &&& d.recoverable
                    &&& d.extra@.len() == 0
                }
            &&& if be == OcrBackendKind::Onnx {
                &&& st.len() == 6
                &&& is_stage(st[1], "ocr_load_image"@, "onnxruntime"@, 1)
                &&& is_stage(st[2], "ocr_detection"@, "onnxruntime"@, 1)
                &&& is_stage(st[3], "ocr_crop"@, "onnxruntime"@, 1)
                &&& is_stage(st[4], "ocr_recognition"@, "onnxruntime"@, 1)
                &&& is_stage(st[5], "ocr_total"@, "onnxruntime"@, 1)
            } else {
                &&& st.len() == 2
                &&& is_stage(st[1], "ocr_recognition"@, ocr_tool(be), 1)
            }
        },
    }
    &&& m.stats == stats_for(m.pages@)
    &&& m.processing.total_duration_ms == Some(2u64)
}

fn texts_of_elements(es: &Vec<Element>) -> (r: (Vec<String>, Vec<String>))
    ensures
        views(r.0@) == present_texts(es@),
        views(r.1@) == present_markdowns(es@),
{
    let mut texts: Vec<String> = Vec::new();
    let mut mds: Vec<String> = Vec::new();
    let mut i: usize = 0;
    while i < es.len()
        invariant
            i <= es@.len(),
            views(texts@) == present_texts(es@.take(i as int)),
            views(mds@) == present_markdowns(es@.take(i as int)),
        decreases es@.len() - i,
    {
        proof {
            assert(es@.take(i + 1).drop_last() =~= es@.take(i as int));
            assert(es@.take(i + 1).last() == es@[i as int]);
        }
        match &es[i].text {
            Some(t) => {
                let ghost b = views(texts@);
                texts.push(t.clone());
                assert(views(texts@) =~= b.push(t@));
            },
            None => {},
        }
        match &es[i].markdown {
            Some(t) => {
                let ghost b = views(mds@);
                mds.push(t.clone());
                assert(views(mds@) =~= b.push(t@));
            },
            None => {},
        }
        i = i + 1;
    }
    assert(es@.take(i as int) =~= es@);
    (texts, mds)
}

proof fn lemma_image_counts(p: crate::model::Page, n: nat)
    requires
        p.elements@.len() == n,
    ensures
        count_pages(seq![p]).elements == n,
        count_pages(seq![p]).chars == p.text@.len(),
        count_pages(seq![p]).words == word_count(p.text@),
{
    let ps = seq![p];
    assert(ps.drop_last() =~= Seq::<crate::model::Page>::empty());
    assert(ps.last() == p);
    let c = zero_count();
    assert(count_pages(ps.drop_last()) == c);
    lemma_count_elements_grows(
        StatsCount { chars: c.chars + p.text@.len(), words: c.words + word_count(p.text@), ..c },
        p.elements@,
    );
}

/// The model of an image from its decoded size, the asset it was stored as, and
/// what text recognition did: one page that the image covers, showing it as its
/// first element and then the recognized elements; the page's text those
/// elements' texts; a warning where recognition is off, or the recognition
/// backend's warnings and stages where it ran.
#[verifier::spinoff_prover]
#[verifier::rlimit(60)]
pub fn build_image_document(
    classification: &FileClassification,
    width: u32,
    height: u32,
    asset: Asset,
    ocr: ImageOcr,
    processed_at: Option<String>,
) -> (m: DocumentModel)
    requires
        classification.input_path@.len() < 0x7fff_ffff_ffff_ffff,
        image_fits(ocr),
    ensures
        image_document(m, *classification, width, height, asset, ocr, processed_at),
{
    let ghost a0 = asset;
    let ghost o0 = ocr;
    let mut m = base_document_model(classification, DocumentFormat::Image, ContentMode::Image, PageType::Image, processed_at);
    m.coordinate_system.unit = to_owned_string("px");
    m.document_profile.has_images = true;
    m.document_profile.has_native_text = false;
    m.document_profile.has_ocr_required_regions = true;
    let first = page_image_element(width, height, asset.asset_id.as_str(), asset.path.as_str());
    let image_id = asset.asset_id.clone();
    m.assets.push(Asset { width: Some(width), height: Some(height), ..asset });
    m.processing.stages.push(stage("image_decode", "image", 1));
    let mut elements: Vec<Element> = Vec::new();
    elements.push(first);
    let mut page_text = String::new();
    let mut warnings: Vec<Diagnostic> = Vec::new();
    let mut stages = Vec::new();
    std::mem::swap(&mut stages, &mut m.processing.stages);
    match ocr {
        ImageOcr::Disabled => {
            warnings.push(diagnostic("OCR_DISABLED", "warning", "document", "OCR disabled in config; image text extraction skipped"));
            assert(elements@.skip(1) =~= ocr_elements(o0));
        },
        ImageOcr::Ran { backend_warnings, backend, elements: recognized } => {
            let ghost bw = backend_warnings@;
            let mut codes: Vec<String> = Vec::new();
            let mut i: usize = 0;
            while i < backend_warnings.len()
                invariant
                    i <= bw.len(),
                    bw == backend_warnings@,
                    views(codes@) == bw.map_values(|w: (String, String)| w.0@).take(i as int),
                    warnings@.len() == i,
                    forall|j: int|
                        0 <= j < i ==> {
                            let d = #[trigger] warnings@[j];
                            &&& d.code@ == bw[j].0@
                            &&& d.severity@ == "warning"@
                            &&& d.scope@ == "stage"@
                            &&& d.page_number == Some(1u32)
                            &&& d.element_id.is_none()
                            &&& d.message@ == bw[j].1@
                            &&& d.recoverable
                            &&& d.extra@.len() == 0
                        },
                decreases bw.len() - i,
            {
                let ghost b = views(codes@);
                codes.push(backend_warnings[i].0.clone());
                let mut d = diagnostic(backend_warnings[i].0.as_str(), "warning", "stage", backend_warnings[i].1.as_str());
                d.page_number = Some(1);
                warnings.push(d);
                proof {
                    assert(views(codes@) =~= b.push(bw[i as int].0@));
                    assert(bw.map_values(|w: (String, String)| w.0@).take(i + 1) =~= bw.map_values(
                        |w: (String, String)| w.0@,
                    ).take(i as int).push(bw[i as int].0@));
                }
                i = i + 1;
            }
            assert(bw.map_values(|w: (String, String)| w.0@).take(i as int) =~= bw.map_values(|w: (String, String)| w.0@));
            let be = effective_ocr_backend(backend, &codes);
            let onnx = be == OcrBackendKind::Onnx;
            if onnx {
                stages.push(stage("ocr_load_image", "onnxruntime", 1));
                stages.push(stage("ocr_detection", "onnxruntime", 1));
                stages.push(stage("ocr_crop", "onnxruntime", 1));
            }
            let (texts, _mds) = texts_of_elements(&recognized);
            page_text = join_strings(&texts, "\n");
            let ghost e1 = elements@;
            let mut rest = recognized;
            let ghost rv = rest@;
            let mut k: usize = 0;
            assert(rv.len() == rest.len());
            while rest.len() > 0
                invariant
                    k + rest@.len() == rv.len(),
                    rv.len() <= usize::MAX,
                    rest@ == rv.skip(k as int),
                    elements@.len() == 1 + k,
                    elements@[0] == e1[0],
                    elements@.skip(1) == rv.take(k as int),
                decreases rest@.len(),
            {
                assert(rv.skip(k as int)[0] == rv[k as int]);
                let e = rest.remove(0);
                let ghost before = elements@;
                elements.push(e);
                k = k + 1;
                proof {
                    assert(rv.skip(k as int) =~= rv.skip(k - 1).drop_first());
                    assert(elements@.skip(1) =~= before.skip(1).push(rv[k - 1]));
                    assert(rv.take(k as int) =~= rv.take(k - 1).push(rv[k - 1]));
                }
            }
            assert(rv.take(k as int) =~= rv);
            assert(elements@.skip(1) =~= ocr_elements(o0));
            stages.push(stage("ocr_recognition", ocr_tool_name(be), 1));
            if onnx {
                stages.push(stage("ocr_total", "onnxruntime", 1));
            }
        },
    }
    m.warnings = warnings;
    m.processing.stages = stages;
    let (_texts, mds) = texts_of_elements(&elements);
    let mut pages = Vec::new();
    std::mem::swap(&mut pages, &mut m.pages);
    let mut page = pages.remove(0);
    page.width = Some(width as i64);
    page.height = Some(height as i64);
    page.page_image_asset_id = Some(image_id);
    page.page_profile.content_mode = ContentMode::Image;
    page.page_profile.has_native_text = false;
    page.page_profile.has_images = true;
    page.page_profile.has_ocr_required_regions = true;
    page.elements = elements;
    page.text = page_text;
    page.markdown = join_strings(&mds, "\n\n");
    page.html = String::new();
    proof {
        lemma_image_counts(page, page.elements@.len());
    }
    pages.insert(0, page);
    m.pages = pages;
    proof {
        assert(m.pages@ =~= seq![m.pages@[0]]);
    }
    update_stats(&mut m);
    m.processing.total_duration_ms = Some(2);
    m
}

} // verus!
