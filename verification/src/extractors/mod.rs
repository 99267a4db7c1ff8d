//! What the format extractors share: the skeleton model, statistics, diagnostics.

use vstd::prelude::*;
use crate::assets::{last_component, last_component_exec};
use crate::classifier::{FileClassification, opt_string_view};
use crate::model::{
    Asset, ContentMode, CoordinateSystem, Diagnostic, DocumentFormat, DocumentModel, DocumentProfile,
    DocumentStats, Element, ElementType, Page, PageProfile, PageType, ProcessingStage,
    ProcessingStatus, ProcessingTrace, Provenance, SourceInfo, StageStatus,
};
use crate::text::{chars_of, is_ws, is_whitespace_char, string_from_chars, to_owned_string};

pub mod docx;
pub mod docx_document;
pub mod docx_table;
pub mod html;
pub mod image;
pub mod markdown;
pub mod pdf;
pub mod pptx;
pub mod rtf;
pub mod txt;
pub mod xlsx;

verus! {

broadcast use vstd::string::group_string_axioms;

/// The number of whitespace-separated words (what `split_whitespace().count()` gives).
pub open spec fn word_count(s: Seq<char>) -> nat
    decreases s.len(),
{
    if s.len() == 0 {
        0
    } else {
        word_count(s.drop_last()) + if !is_ws(s.last()) && (s.len() == 1 || is_ws(
            s[s.len() - 2],
        )) {
            1nat
        } else {
            0nat
        }
    }
}

pub open spec fn is_text_kind(t: ElementType) -> bool {
    t == ElementType::Text || t == ElementType::TextOcr || t == ElementType::Paragraph || t
        == ElementType::Heading || t == ElementType::Blockquote || t == ElementType::Code || t
        == ElementType::List || t == ElementType::ListItem
}

pub open spec fn is_list_kind(t: ElementType) -> bool {
    t == ElementType::List || t == ElementType::ListItem
}

/// The counts that the statistics of a document are made of.
pub struct StatsCount {
    pub elements: nat,
    pub text: nat,
    pub ocr: nat,
    pub image: nat,
    pub table: nat,
    pub formula: nat,
    pub list: nat,
    pub chars: nat,
    pub words: nat,
}

pub open spec fn zero_count() -> StatsCount {
    StatsCount {
        elements: 0,
        text: 0,
        ocr: 0,
        image: 0,
        table: 0,
        formula: 0,
        list: 0,
        chars: 0,
        words: 0,
    }
}

pub open spec fn add_element(c: StatsCount, t: ElementType) -> StatsCount {
    StatsCount {
        elements: c.elements + 1,
        text: c.text + if is_text_kind(t) { 1nat } else { 0nat },
        ocr: c.ocr + if t == ElementType::TextOcr { 1nat } else { 0nat },
        image: c.image + if t == ElementType::Image { 1nat } else { 0nat },
        table: c.table + if t == ElementType::Table { 1nat } else { 0nat },
        formula: c.formula + if t == ElementType::Formula { 1nat } else { 0nat },
        list: c.list + if is_list_kind(t) { 1nat } else { 0nat },
        ..c
    }
}

pub open spec fn count_elements(c: StatsCount, es: Seq<Element>) -> StatsCount
    decreases es.len(),
{
    if es.len() == 0 {
        c
    } else {
        add_element(count_elements(c, es.drop_last()), es.last().element_type)
    }
}

pub open spec fn count_pages(pages: Seq<Page>) -> StatsCount
    decreases pages.len(),
{
    if pages.len() == 0 {
        zero_count()
    } else {
        let c = count_pages(pages.drop_last());
        let p = pages.last();
        count_elements(
            StatsCount { chars: c.chars + p.text@.len(), words: c.words + word_count(p.text@), ..c },
            p.elements@,
        )
    }
}

/// The statistics that `update_stats` records for a list of pages.
pub open spec fn stats_for(pages: Seq<Page>) -> DocumentStats {
    let c = count_pages(pages);
    DocumentStats {
        page_count: pages.len() as u32,
        element_count: c.elements as u32,
        text_element_count: c.text as u32,
        ocr_element_count: c.ocr as u32,
        image_count: c.image as u32,
        table_count: c.table as u32,
        formula_count: c.formula as u32,
        list_count: c.list as u32,
        total_chars: c.chars as u32,
        total_words: c.words as u32,
    }
}

/// Every kind count is at most the element count.
pub open spec fn counts_bounded(c: StatsCount) -> bool {
    &&& c.text <= c.elements
    &&& c.ocr <= c.elements
    &&& c.image <= c.elements
    &&& c.table <= c.elements
    &&& c.formula <= c.elements
    &&& c.list <= c.elements
}

pub proof fn lemma_count_elements_grows(c: StatsCount, es: Seq<Element>)
    requires
        counts_bounded(c),
    ensures
        counts_bounded(count_elements(c, es)),
        count_elements(c, es).elements == c.elements + es.len(),
        count_elements(c, es).chars == c.chars,
        count_elements(c, es).words == c.words,
    decreases es.len(),
{
    if es.len() > 0 {
        lemma_count_elements_grows(c, es.drop_last());
    }
}

pub proof fn lemma_count_pages_bounded(pages: Seq<Page>)
    ensures
        counts_bounded(count_pages(pages)),
    decreases pages.len(),
{
    if pages.len() > 0 {
        lemma_count_pages_bounded(pages.drop_last());
        let c = count_pages(pages.drop_last());
        let p = pages.last();
        lemma_count_elements_grows(
            StatsCount { chars: c.chars + p.text@.len(), words: c.words + word_count(p.text@), ..c },
            p.elements@,
        );
    }
}

pub proof fn lemma_count_pages_prefix(pages: Seq<Page>, i: int)
    requires
        0 <= i <= pages.len(),
    ensures
        count_pages(pages.take(i)).elements <= count_pages(pages).elements,
        count_pages(pages.take(i)).chars <= count_pages(pages).chars,
        count_pages(pages.take(i)).words <= count_pages(pages).words,
    decreases pages.len() - i,
{
    if i < pages.len() {
        lemma_count_pages_prefix(pages, i + 1);
        let t = pages.take(i + 1);
        assert(t.drop_last() =~= pages.take(i));
        let c = count_pages(pages.take(i));
        let p = t.last();
        lemma_count_pages_bounded(pages.take(i));
        lemma_count_elements_grows(
            StatsCount { chars: c.chars + p.text@.len(), words: c.words + word_count(p.text@), ..c },
            p.elements@,
        );
    } else {
        assert(pages.take(i) =~= pages);
    }
}

/// The number of whitespace-separated words of a text.
pub fn count_words(s: &str) -> (n: usize)
    ensures
        n == word_count(s@),
{
    let v = chars_of(s);
    let mut n: usize = 0;
    let mut i: usize = 0;
    while i < v.len()
        invariant
            i <= v@.len(),
            n == word_count(v@.take(i as int)),
            n <= i,
        decreases v@.len() - i,
    {
        let starts = !is_whitespace_char(v[i]) && (i == 0 || is_whitespace_char(v[i - 1]));
        proof {
            let t = v@.take(i + 1);
            assert(t.drop_last() =~= v@.take(i as int));
            if i > 0 {
                assert(t[t.len() - 2] == v@[i - 1]);
            }
        }
        if starts {
            n = n + 1;
        }
        i = i + 1;
    }
    assert(v@.take(i as int) =~= v@);
    n
}

fn kind_flags(t: ElementType) -> (r: (bool, bool, bool, bool, bool, bool))
    ensures
        r.0 == is_text_kind(t),
        r.1 == (t == ElementType::TextOcr),
        r.2 == (t == ElementType::Image),
        r.3 == (t == ElementType::Table),
        r.4 == (t == ElementType::Formula),
        r.5 == is_list_kind(t),
{
    let text = match t {
        ElementType::Text | ElementType::TextOcr | ElementType::Paragraph | ElementType::Heading
        | ElementType::Blockquote | ElementType::Code | ElementType::List
        | ElementType::ListItem => true,
        _ => false,
    };
    let list = match t {
        ElementType::List | ElementType::ListItem => true,
        _ => false,
    };
    (
        text,
        t == ElementType::TextOcr,
        t == ElementType::Image,
        t == ElementType::Table,
        t == ElementType::Formula,
        list,
    )
}

/// The statistics of these pages fit the 32-bit counters they are kept in.
pub open spec fn stats_fit_spec(pages: Seq<Page>) -> bool {
    let c = count_pages(pages);
    c.elements <= u32::MAX && c.chars <= u32::MAX && c.words <= u32::MAX
}

/// Whether the statistics of these pages fit their 32-bit counters.
pub fn stats_fit(pages: &Vec<Page>) -> (r: bool)
    ensures
        r == stats_fit_spec(pages@),
{
    let mut elements: u128 = 0;
    let mut chars: u128 = 0;
    let mut words: u128 = 0;
    let mut i: usize = 0;
    while i < pages.len()
        invariant
            i <= pages@.len(),
            elements == count_pages(pages@.take(i as int)).elements,
            chars == count_pages(pages@.take(i as int)).chars,
            words == count_pages(pages@.take(i as int)).words,
            elements <= u32::MAX,
            chars <= u32::MAX,
            words <= u32::MAX,
        decreases pages@.len() - i,
    {
        let p = &pages[i];
        proof {
            let t = pages@.take(i + 1);
            assert(t.drop_last() =~= pages@.take(i as int));
            assert(t.last() == *p);
            let c = count_pages(pages@.take(i as int));
            lemma_count_pages_bounded(pages@.take(i as int));
            lemma_count_elements_grows(
                StatsCount { chars: c.chars + p.text@.len(), words: c.words + word_count(p.text@), ..c },
                p.elements@,
            );
            lemma_count_pages_prefix(pages@, i + 1);
        }
        elements = elements + p.elements.len() as u128;
        chars = chars + chars_of(p.text.as_str()).len() as u128;
        words = words + count_words(p.text.as_str()) as u128;
        if elements > 0xffff_ffff || chars > 0xffff_ffff || words > 0xffff_ffff {
            return false;
        }
        i = i + 1;
    }
    assert(pages@.take(i as int) =~= pages@);
    true
}

/// Recounts the document's statistics from its pages: pages, elements by kind,
/// characters and words of the page texts.
pub fn update_stats(model: &mut DocumentModel)
    requires
        count_pages(old(model).pages@).elements <= u32::MAX,
        count_pages(old(model).pages@).chars <= u32::MAX,
        count_pages(old(model).pages@).words <= u32::MAX,
    ensures
        *final(model) == (DocumentModel { stats: stats_for(old(model).pages@), ..*old(model) }),
{
    let ghost pages = model.pages@;
    let mut element_count: u32 = 0;
    let mut text_element_count: u32 = 0;
    let mut ocr_element_count: u32 = 0;
    let mut image_count: u32 = 0;
    let mut table_count: u32 = 0;
    let mut formula_count: u32 = 0;
    let mut list_count: u32 = 0;
    let mut total_chars: u32 = 0;
    let mut total_words: u32 = 0;
    proof {
        lemma_count_pages_bounded(pages);
    }
    let mut pi: usize = 0;
    while pi < model.pages.len()
        invariant
            pi <= pages.len(),
            model.pages@ == pages,
            count_pages(pages).elements <= u32::MAX,
            count_pages(pages).chars <= u32::MAX,
            count_pages(pages).words <= u32::MAX,
            ({
                let c = count_pages(pages.take(pi as int));
                &&& element_count == c.elements
                &&& text_element_count == c.text
                &&& ocr_element_count == c.ocr
                &&& image_count == c.image
                &&& table_count == c.table
                &&& formula_count == c.formula
                &&& list_count == c.list
                &&& total_chars == c.chars
                &&& total_words == c.words
            }),
        decreases pages.len() - pi,
    {
        let page = &model.pages[pi];
        proof {
            lemma_count_pages_prefix(pages, pi + 1);
            assert(pages.take(pi + 1).drop_last() =~= pages.take(pi as int));
            lemma_count_pages_bounded(pages.take(pi as int));
        }
        let ghost c0 = count_pages(pages.take(pi as int));
        let ghost base = StatsCount {
            chars: c0.chars + page.text@.len(),
            words: c0.words + word_count(page.text@),
            ..c0
        };
        proof {
            lemma_count_elements_grows(base, page.elements@);
        }
        let chars = page.text.as_str().unicode_len();
        let words = count_words(page.text.as_str());
        total_chars = total_chars + chars as u32;
        total_words = total_words + words as u32;
        let mut ei: usize = 0;
        while ei < page.elements.len()
            invariant
                ei <= page.elements@.len(),
                counts_bounded(base),
                count_elements(base, page.elements@).elements <= u32::MAX,
                ({
                    let c = count_elements(base, page.elements@.take(ei as int));
                    &&& element_count == c.elements
                    &&& text_element_count == c.text
                    &&& ocr_element_count == c.ocr
                    &&& image_count == c.image
                    &&& table_count == c.table
                    &&& formula_count == c.formula
                    &&& list_count == c.list
                    &&& total_chars == c.chars
                    &&& total_words == c.words
                }),
            decreases page.elements@.len() - ei,
        {
            proof {
                let t = page.elements@.take(ei + 1);
                assert(t.drop_last() =~= page.elements@.take(ei as int));
                lemma_count_elements_grows(base, page.elements@.take(ei as int));
                lemma_count_elements_grows(base, t);
                assert(page.elements@.take(ei as int).len() < page.elements@.len());
                lemma_count_elements_grows(base, page.elements@);
            }
            let flags = kind_flags(page.elements[ei].element_type);
            element_count = element_count + 1;
            if flags.0 {
                text_element_count = text_element_count + 1;
            }
            if flags.1 {
                ocr_element_count = ocr_element_count + 1;
            }
            if flags.2 {
                image_count = image_count + 1;
            }
            if flags.3 {
                table_count = table_count + 1;
            }
            if flags.4 {
                formula_count = formula_count + 1;
            }
            if flags.5 {
                list_count = list_count + 1;
            }
            ei = ei + 1;
        }
        assert(page.elements@.take(ei as int) =~= page.elements@);
        pi = pi + 1;
    }
    assert(pages.take(pi as int) =~= pages);
    model.stats = DocumentStats {
        page_count: model.pages.len() as u32,
        element_count,
        text_element_count,
        ocr_element_count,
        image_count,
        table_count,
        formula_count,
        list_count,
        total_chars,
        total_words,
    };
}

/// `d` is a recoverable document diagnostic with this severity, code and message.
pub open spec fn document_notice(d: Diagnostic, severity: Seq<char>, code: Seq<char>, message: Seq<char>) -> bool {
    &&& d.code@ == code
    &&& d.severity@ == severity
    &&& d.scope@ == "document"@
    &&& d.page_number.is_none()
    &&& d.element_id.is_none()
    &&& d.message@ == message
    &&& d.recoverable
    &&& d.extra@.len() == 0
}

/// The assets in the order they were stored, each asset id once.
pub open spec fn registered_assets(assets: Seq<Asset>) -> Seq<Asset>
    decreases assets.len(),
{
    if assets.len() == 0 {
        Seq::empty()
    } else {
        let rest = registered_assets(assets.drop_last());
        if exists|j: int| 0 <= j < rest.len() && (#[trigger] rest[j]).asset_id@ == assets.last().asset_id@ {
            rest
        } else {
            rest.push(assets.last())
        }
    }
}

fn has_asset(assets: &Vec<Asset>, id: &String) -> (r: bool)
    ensures
        r == exists|j: int| 0 <= j < assets@.len() && (#[trigger] assets@[j]).asset_id@ == id@,
{
    let mut i: usize = 0;
    while i < assets.len()
        invariant
            i <= assets@.len(),
            forall|j: int| 0 <= j < i ==> (#[trigger] assets@[j]).asset_id@ != id@,
        decreases assets@.len() - i,
    {
        if crate::json::str_eq(&assets[i].asset_id, id.as_str()) {
            return true;
        }
        i = i + 1;
    }
    false
}

/// Adds the stored assets to the document's, each asset id once.
pub fn register_assets(stored: Vec<Asset>) -> (r: Vec<Asset>)
    ensures
        r@ == registered_assets(stored@),
{
    let ghost all = stored@;
    assert(all.len() == stored.len());
    let mut rest = stored;
    let mut out: Vec<Asset> = Vec::new();
    let mut k: usize = 0;
    while rest.len() > 0
        invariant
            k + rest@.len() == all.len(),
            all.len() <= usize::MAX,
            rest@ == all.skip(k as int),
            out@ == registered_assets(all.take(k as int)),
        decreases rest@.len(),
    {
        proof {
            assert(all.take(k + 1).drop_last() =~= all.take(k as int));
            assert(all.skip(k as int)[0] == all[k as int]);
        }
        let a = rest.remove(0);
        if !has_asset(&out, &a.asset_id) {
            out.push(a);
        }
        k = k + 1;
        proof {
            assert(all.skip(k as int) =~= all.skip(k - 1).drop_first());
        }
    }
    assert(all.take(k as int) =~= all);
    out
}

/// A recoverable, document-wide warning.
pub fn warning(code: &str, message: &str) -> (d: Diagnostic)
    ensures
        d.code@ == code@,
        d.severity@ == "warning"@,
        d.scope@ == "document"@,
        d.page_number.is_none(),
        d.element_id.is_none(),
        d.message@ == message@,
        d.recoverable,
        d.extra@.len() == 0,
{
    diagnostic(code, "warning", "document", message)
}

/// A recoverable diagnostic with the given severity and scope.
pub fn diagnostic(code: &str, severity: &str, scope: &str, message: &str) -> (d: Diagnostic)
    ensures
        d.code@ == code@,
        d.severity@ == severity@,
        d.scope@ == scope@,
        d.page_number.is_none(),
        d.element_id.is_none(),
        d.message@ == message@,
        d.recoverable,
        d.extra@.len() == 0,
{
    Diagnostic {
        code: to_owned_string(code),
        severity: to_owned_string(severity),
        scope: to_owned_string(scope),
        page_number: None,
        element_id: None,
        message: to_owned_string(message),
        recoverable: true,
        extra: Vec::new(),
    }
}

/// A recoverable, document-wide warning with an owned message.
pub fn doc_warning(code: &str, message: String) -> (d: Diagnostic)
    ensures
        d.code@ == code@,
        d.severity@ == "warning"@,
        d.scope@ == "document"@,
        d.page_number.is_none(),
        d.element_id.is_none(),
        d.message@ == message@,
        d.recoverable,
        d.extra@.len() == 0,
{
    diagnostic(code, "warning", "document", message.as_str())
}

/// A recoverable, document-wide error with an owned message.
pub fn doc_error(code: &str, message: String) -> (d: Diagnostic)
    ensures
        d.code@ == code@,
        d.severity@ == "error"@,
        d.scope@ == "document"@,
        d.page_number.is_none(),
        d.element_id.is_none(),
        d.message@ == message@,
        d.recoverable,
        d.extra@.len() == 0,
{
    diagnostic(code, "error", "document", message.as_str())
}

/// A processing stage that succeeded.
pub fn stage(name: &str, tool: &str, duration_ms: u64) -> (s: ProcessingStage)
    ensures
        s.name@ == name@,
        s.status == StageStatus::Succeeded,
        s.tool@ == tool@,
        s.duration_ms == Some(duration_ms),
        s.metadata@.len() == 0,
{
    ProcessingStage {
        name: to_owned_string(name),
        status: StageStatus::Succeeded,
        tool: to_owned_string(tool),
        duration_ms: Some(duration_ms),
        metadata: Vec::new(),
    }
}

/// The provenance of natively extracted content.
pub fn provenance(tool: &str, stage: &str, source_kind: &str, source_value: &str) -> (p: Provenance)
    ensures
        p.method@ == "native"@,
        p.tool@ == tool@,
        p.stage@ == stage@,
        p.source_kind.is_some() && p.source_kind.unwrap()@ == source_kind@,
        p.source_value.is_some() && p.source_value.unwrap()@ == source_value@,
{
    Provenance {
        method: "native".to_string(),
        tool: to_owned_string(tool),
        stage: to_owned_string(stage),
        source_kind: Some(to_owned_string(source_kind)),
        source_value: Some(to_owned_string(source_value)),
    }
}

/// The confidence (in permille) that natively extracted content carries.
pub fn default_confidence() -> (c: u32)
    ensures
        c == 990,
{
    990
}

/// The file name of a path: its last component, or `unknown` when it has none.
pub open spec fn file_name_of(path: Seq<char>) -> Seq<char> {
    let f = last_component(path);
    if f.len() == 0 || f == ".."@ {
        "unknown"@
    } else {
        f
    }
}

/// `s` with every `.` replaced by `_`.
pub open spec fn dots_to_underscores(s: Seq<char>) -> Seq<char> {
    s.map_values(|c: char| if c == '.' { '_' } else { c })
}

fn file_name_exec(path: &str) -> (r: Vec<char>)
    requires
        path@.len() < 0x7fff_ffff_ffff_ffff,
    ensures
        r@ == file_name_of(path@),
{
    let p = chars_of(path);
    let f = last_component_exec(p.as_slice());
    proof {
        reveal_strlit("..");
    }
    let is_dotdot = f.len() == 2 && f[0] == '.' && f[1] == '.';
    assert(is_dotdot == (f@ == ".."@)) by {
        if f@.len() == 2 && f@[0] == '.' && f@[1] == '.' {
            assert(f@ =~= ".."@);
        }
    }
    if f.len() == 0 || is_dotdot {
        chars_of("unknown")
    } else {
        f
    }
}

/// What every extracted model takes from its source file: identity, source, the
/// profile's format and content mode, the coordinate system, and no assets, chunks,
/// errors or warnings of its own yet.
pub open spec fn skeleton_model(
    m: DocumentModel,
    classification: FileClassification,
    format: DocumentFormat,
    content_mode: ContentMode,
    page_type: PageType,
    processed_at: Option<String>,
) -> bool {
    &&& model_identity(m, classification, format, content_mode, processed_at)
    &&& m.coordinate_system.unit@ == (if page_type == PageType::SyntheticTextPage {
        "synthetic"@
    } else {
        "px"@
    })
    &&& m.assets@.len() == 0
    &&& m.chunks@.len() == 0
    &&& m.errors@.len() == 0
    &&& m.warnings@.len() == 0
    &&& m.processing.status == ProcessingStatus::Complete
}

/// What a model takes from its source file and its reader: the source identity,
/// the profile's content mode, native text and the default confidence.
pub open spec fn model_identity(
    m: DocumentModel,
    classification: FileClassification,
    format: DocumentFormat,
    content_mode: ContentMode,
    processed_at: Option<String>,
) -> bool {
    &&& source_identity(m, classification, format, processed_at)
    &&& m.document_profile.content_mode == content_mode
    &&& m.document_profile.has_native_text
    &&& m.document_profile.confidence_permille == 900
}

/// What a model takes from its source file: the schema version, the document id
/// made from the file name, the source description, and the profile's format.
pub open spec fn source_identity(
    m: DocumentModel,
    classification: FileClassification,
    format: DocumentFormat,
    processed_at: Option<String>,
) -> bool {
    &&& m.schema_version@ == "1.0.0"@
    &&& m.document_id@ == dots_to_underscores(file_name_of(classification.input_path@))
    &&& m.job_id.is_none()
    &&& m.source.uri@ == classification.input_path@
    &&& m.source.filename@ == file_name_of(classification.input_path@)
    &&& m.source.extension@ == classification.extension@
    &&& m.source.mime_type@ == match opt_string_view(classification.mime_by_magic) {
        Some(v) => v,
        None => match opt_string_view(classification.mime_by_extension) {
            Some(v) => v,
            None => "application/octet-stream"@,
        },
    }
    &&& m.source.size_bytes == Some(classification.size_bytes)
    &&& m.source.sha256.is_some() && m.source.sha256.unwrap()@ == classification.sha256@
    &&& m.source.processed_at == processed_at
    &&& m.document_profile.format == format
}

/// What a fresh model holds besides its identity: the languages Russian and
/// English, a profile that claims nothing yet, the top-left origin on normalized
/// pages, the pipeline version, and a first page with native text, in Russian,
/// without width, height, image, markdown, HTML or warnings.
pub open spec fn base_defaults(m: DocumentModel) -> bool {
    &&& m.document_profile.languages@.len() == 2
    &&& m.document_profile.languages@[0]@ == "ru"@
    &&& m.document_profile.languages@[1]@ == "en"@
    &&& !m.document_profile.has_images && !m.document_profile.has_formulas
    &&& !m.document_profile.has_ocr_required_regions && !m.document_profile.has_handwriting
    &&& !m.document_profile.has_multicolumn_layout
    &&& m.document_profile.document_type_guess.is_none()
    &&& m.coordinate_system.origin@ == "top_left"@
    &&& m.coordinate_system.normalized_to_page
    &&& m.processing.pipeline_version@ == "1.0.0"@
    &&& m.pages@.len() > 0 ==> {
        let p = m.pages@[0];
        &&& p.width.is_none() && p.height.is_none() && p.page_image_asset_id.is_none()
        &&& p.page_profile.has_native_text
        &&& !p.page_profile.has_ocr_required_regions && !p.page_profile.has_tables
        &&& !p.page_profile.has_images && !p.page_profile.has_formulas
        &&& !p.page_profile.has_handwriting
        &&& p.page_profile.language.is_some() && p.page_profile.language.unwrap()@ == "ru"@
        &&& p.page_profile.confidence_permille == 900
        &&& p.markdown@.len() == 0 && p.html@.len() == 0 && p.warnings@.len() == 0
    }
}

/// The skeleton model of a document: its source, a profile for the given format and
/// content mode, and one empty page of the given type.
pub fn base_document_model(
    classification: &FileClassification,
    format: DocumentFormat,
    content_mode: ContentMode,
    page_type: PageType,
    processed_at: Option<String>,
) -> (m: DocumentModel)
    requires
        classification.input_path@.len() < 0x7fff_ffff_ffff_ffff,
    ensures
        skeleton_model(m, *classification, format, content_mode, page_type, processed_at),
        !m.document_profile.has_tables,
        m.stats == stats_for(Seq::empty()),
        m.pages@.len() == 1,
        m.pages@[0].page_number == 1,
        m.pages@[0].page_type == page_type,
        m.pages@[0].page_profile.content_mode == content_mode,
        m.pages@[0].elements@.len() == 0,
        m.pages@[0].text@.len() == 0,
        m.processing.stages@.len() == 0,
        m.processing.total_duration_ms.is_none(),
        base_defaults(m),
{
    let filename = file_name_exec(classification.input_path.as_str());
    let mut doc_id: Vec<char> = Vec::new();
    let mut i: usize = 0;
    while i < filename.len()
        invariant
            i <= filename@.len(),
            doc_id@ == dots_to_underscores(filename@.take(i as int)),
        decreases filename@.len() - i,
    {
        let c = filename[i];
        doc_id.push(if c == '.' { '_' } else { c });
        i = i + 1;
        assert(doc_id@ =~= dots_to_underscores(filename@.take(i as int)));
    }
    assert(filename@.take(i as int) =~= filename@);
    let mime_type = match &classification.mime_by_magic {
        Some(m) => m.clone(),
        None => match &classification.mime_by_extension {
            Some(m) => m.clone(),
            None => "application/octet-stream".to_string(),
        },
    };
    let synthetic = page_type == PageType::SyntheticTextPage;
    let mut languages: Vec<String> = Vec::new();
    languages.push("ru".to_string());
    languages.push("en".to_string());
    let mut pages: Vec<Page> = Vec::new();
    pages.push(
        Page {
            page_number: 1,
            page_type,
            width: None,
            height: None,
            page_image_asset_id: None,
            page_profile: PageProfile {
                content_mode,
                has_native_text: true,
                has_ocr_required_regions: false,
                has_tables: false,
                has_images: false,
                has_formulas: false,
                has_handwriting: false,
                language: Some("ru".to_string()),
                confidence_permille: 900,
            },
            elements: Vec::new(),
            text: String::new(),
            markdown: String::new(),
            html: String::new(),
            warnings: Vec::new(),
        },
    );
    let m = DocumentModel {
        schema_version: "1.0.0".to_string(),
        document_id: string_from_chars(doc_id.as_slice()),
        job_id: None,
        source: SourceInfo {
            uri: classification.input_path.clone(),
            filename: string_from_chars(filename.as_slice()),
            extension: classification.extension.clone(),
            mime_type,
            size_bytes: Some(classification.size_bytes),
            sha256: Some(classification.sha256.clone()),
            processed_at,
        },
        document_profile: DocumentProfile {
            format,
            content_mode,
            languages,
            has_native_text: true,
            has_images: false,
            has_tables: false,
            has_formulas: false,
            has_ocr_required_regions: false,
            has_handwriting: false,
            has_multicolumn_layout: false,
            document_type_guess: None,
            confidence_permille: 900,
        },
        stats: DocumentStats {
            page_count: 0,
            element_count: 0,
            text_element_count: 0,
            ocr_element_count: 0,
            image_count: 0,
            table_count: 0,
            formula_count: 0,
            list_count: 0,
            total_chars: 0,
            total_words: 0,
        },
        coordinate_system: CoordinateSystem {
            origin: "top_left".to_string(),
            unit: if synthetic {
                "synthetic".to_string()
            } else {
                "px".to_string()
            },
            normalized_to_page: true,
        },
        assets: Vec::new(),
        pages,
        chunks: Vec::new(),
        errors: Vec::new(),
        warnings: Vec::new(),
        processing: ProcessingTrace {
            pipeline_version: "1.0.0".to_string(),
            status: ProcessingStatus::Complete,
            stages: Vec::new(),
            total_duration_ms: None,
        },
    };
    assert(count_pages(Seq::<Page>::empty()) == zero_count());
    m
}

} // verus!
