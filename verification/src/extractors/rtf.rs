//! RTF: the file is first converted to another format by an outside tool, then the
//! converted file is read by that format's extractor. What stands here is how the
//! model of an RTF file is put together around that conversion: the stages and
//! warnings that the conversion recorded, the failure when no converter succeeded,
//! and the provenance of what was read from the converted file.

use vstd::prelude::*;
use crate::classifier::FileClassification;
use crate::converters::traits::{
    ConversionError, ConversionStageRecord, ConversionTarget, ConvertedDocument, ExtractionContext,
};
use crate::extractors::{
    base_document_model, count_elements, count_pages, model_identity, stage, stats_for,
    update_stats, zero_count, StatsCount,
};
use crate::model::{
    clone_opt_string, clone_string, ContentMode, CoordinateSystem, Diagnostic, DocumentFormat,
    DocumentModel, DocumentProfile, Element, Page, PageType, ProcessingStage, ProcessingStatus,
    ProcessingTrace, Provenance, SourceInfo, StageStatus,
};
use crate::strmap::{entries_map, keys_distinct};
use crate::text::{push_str_chars, string_from_chars, to_owned_string};

verus! {

/// The extractor of RTF documents.
pub struct RtfExtractor;

impl RtfExtractor {
    pub fn name(&self) -> (s: &'static str)
        ensures
            s@ == "rtf_extractor"@,
    {
        "rtf_extractor"
    }
}

/// The name of the reader that takes over a file converted to `t`.
pub open spec fn tool_suffix(t: ConversionTarget) -> Seq<char> {
    match t {
        ConversionTarget::Docx => "docx_ooxml_parser"@,
        ConversionTarget::Pdf => "pdf_native_extractor"@,
        ConversionTarget::Html => "html_dom_parser"@,
        ConversionTarget::Markdown => "markdown_parser"@,
        ConversionTarget::Text => "text_parser"@,
    }
}

/// The name of the reader that takes over a file converted to `target`.
pub fn tool_suffix_for_target(target: ConversionTarget) -> (s: &'static str)
    ensures
        s@ == tool_suffix(target),
{
    match target {
        ConversionTarget::Docx => "docx_ooxml_parser",
        ConversionTarget::Pdf => "pdf_native_extractor",
        ConversionTarget::Html => "html_dom_parser",
        ConversionTarget::Markdown => "markdown_parser",
        ConversionTarget::Text => "text_parser",
    }
}

/// The name of the stage that converted the RTF file to `t`.
pub open spec fn conversion_stage_name(t: ConversionTarget) -> Seq<char> {
    match t {
        ConversionTarget::Html => "rtf_convert_to_html"@,
        ConversionTarget::Docx => "rtf_convert_to_docx"@,
        ConversionTarget::Pdf => "rtf_convert_to_pdf"@,
        ConversionTarget::Text => "rtf_convert_to_text"@,
        ConversionTarget::Markdown => "rtf_convert_to_markdown"@,
    }
}

fn conversion_stage_name_exec(target: ConversionTarget) -> (s: &'static str)
    ensures
        s@ == conversion_stage_name(target),
{
    match target {
        ConversionTarget::Html => "rtf_convert_to_html",
        ConversionTarget::Docx => "rtf_convert_to_docx",
        ConversionTarget::Pdf => "rtf_convert_to_pdf",
        ConversionTarget::Text => "rtf_convert_to_text",
        ConversionTarget::Markdown => "rtf_convert_to_markdown",
    }
}

/// The stage named in the provenance of what was read from a file converted to `t`.
pub open spec fn extraction_stage_name(t: ConversionTarget) -> Seq<char> {
    match t {
        ConversionTarget::Html => "rtf_to_html_extraction"@,
        ConversionTarget::Docx => "rtf_to_docx_extraction"@,
        ConversionTarget::Pdf => "rtf_to_pdf_extraction"@,
        ConversionTarget::Text => "rtf_to_text_extraction"@,
        ConversionTarget::Markdown => "rtf_to_markdown_extraction"@,
    }
}

fn extraction_stage_name_exec(target: ConversionTarget) -> (s: &'static str)
    ensures
        s@ == extraction_stage_name(target),
{
    match target {
        ConversionTarget::Html => "rtf_to_html_extraction",
        ConversionTarget::Docx => "rtf_to_docx_extraction",
        ConversionTarget::Pdf => "rtf_to_pdf_extraction",
        ConversionTarget::Text => "rtf_to_text_extraction",
        ConversionTarget::Markdown => "rtf_to_markdown_extraction",
    }
}

/// How the status word of a conversion step reads as a stage status: `ok`,
/// `warning` and `error` as themselves, anything else as a warning.
pub open spec fn stage_status_of(s: Seq<char>) -> StageStatus {
    if s == "ok"@ {
        StageStatus::Succeeded
    } else if s == "error"@ {
        StageStatus::Error
    } else {
        StageStatus::Warning
    }
}

fn stage_status_exec(s: &String) -> (r: StageStatus)
    ensures
        r == stage_status_of(s@),
{
    if crate::json::str_eq(s, "ok") {
        StageStatus::Succeeded
    } else if crate::json::str_eq(s, "error") {
        StageStatus::Error
    } else {
        StageStatus::Warning
    }
}

/// `d` reports the conversion error `e` under `code`, with the given scope and
/// severity; the error's metadata become the diagnostic's extra entries.
pub open spec fn reports_error(
    d: Diagnostic,
    code: Seq<char>,
    e: ConversionError,
    scope: Seq<char>,
    severity: Seq<char>,
) -> bool {
    &&& d.code@ == code
    &&& d.severity@ == severity
    &&& d.scope@ == scope
    &&& d.page_number.is_none()
    &&& d.element_id.is_none()
    &&& d.message@ == e.message@
    &&& d.recoverable == e.recoverable
    &&& keys_distinct(d.extra@)
    &&& entries_map(d.extra@) == e.metadata@
}

/// A diagnostic that reports a conversion error.
pub fn to_diagnostic(code: &str, error: &ConversionError, scope: &str, severity: &str) -> (d: Diagnostic)
    requires
        error.metadata.wf(),
    ensures
        reports_error(d, code@, *error, scope@, severity@),
{
    Diagnostic {
        code: to_owned_string(code),
        severity: to_owned_string(severity),
        scope: to_owned_string(scope),
        page_number: None,
        element_id: None,
        message: error.message.clone(),
        recoverable: error.recoverable,
        extra: error.metadata.to_pairs(),
    }
}

/// `s` records, under `prefix`, the conversion step `r`.
pub open spec fn records_step(s: ProcessingStage, prefix: Seq<char>, r: ConversionStageRecord) -> bool {
    &&& s.name@ == prefix + "_"@ + r.name@
    &&& s.status == stage_status_of(r.status@)
    &&& s.tool@ == r.tool@
    &&& s.duration_ms == Some(0u64)
    &&& keys_distinct(s.metadata@)
    &&& entries_map(s.metadata@) == r.metadata@
}

/// The steps and warnings of a conversion carry well-formed metadata.
pub open spec fn context_wf(c: ExtractionContext) -> bool {
    &&& forall|i: int| 0 <= i < c.stage_records@.len() ==> (#[trigger] c.stage_records@[i]).metadata.wf()
    &&& forall|i: int| 0 <= i < c.warnings@.len() ==> (#[trigger] c.warnings@[i]).metadata.wf()
}

/// `stages` is `before` followed by one stage for each step of `c`, in order.
pub open spec fn stages_appended(
    before: Seq<ProcessingStage>,
    stages: Seq<ProcessingStage>,
    c: ExtractionContext,
    prefix: Seq<char>,
) -> bool {
    &&& stages.len() == before.len() + c.stage_records@.len()
    &&& stages.take(before.len() as int) == before
    &&& forall|k: int|
        0 <= k < c.stage_records@.len() ==> #[trigger] records_step(
            stages[before.len() + k],
            prefix,
            c.stage_records@[k],
        )
}

/// `warnings` is `before` followed by one document warning for each warning of `c`,
/// reported under its own code.
pub open spec fn warnings_appended(before: Seq<Diagnostic>, warnings: Seq<Diagnostic>, c: ExtractionContext) -> bool {
    &&& warnings.len() == before.len() + c.warnings@.len()
    &&& warnings.take(before.len() as int) == before
    &&& forall|k: int|
        0 <= k < c.warnings@.len() ==> #[trigger] reports_error(
            warnings[before.len() + k],
            c.warnings@[k].code@,
            c.warnings@[k],
            "document"@,
            "warning"@,
        )
}

fn push_context_stages(stages: &mut Vec<ProcessingStage>, context: &ExtractionContext, prefix: &str)
    requires
        context_wf(*context),
    ensures
        stages_appended(old(stages)@, final(stages)@, *context, prefix@),
{
    let ghost before = stages@;
    let mut i: usize = 0;
    while i < context.stage_records.len()
        invariant
            i <= context.stage_records@.len(),
            context_wf(*context),
            stages@.len() == before.len() + i,
            stages@.take(before.len() as int) == before,
            forall|k: int|
                0 <= k < i ==> #[trigger] records_step(
                    stages@[before.len() + k],
                    prefix@,
                    context.stage_records@[k],
                ),
        decreases context.stage_records@.len() - i,
    {
        let rec = &context.stage_records[i];
        assert(rec.metadata.wf());
        let mut name: Vec<char> = Vec::new();
        push_str_chars(&mut name, prefix);
        push_str_chars(&mut name, "_");
        push_str_chars(&mut name, rec.name.as_str());
        let s = ProcessingStage {
            name: string_from_chars(name.as_slice()),
            status: stage_status_exec(&rec.status),
            tool: rec.tool.clone(),
            duration_ms: Some(0),
            metadata: rec.metadata.to_pairs(),
        };
        let ghost prev = stages@;
        stages.push(s);
        proof {
            assert(stages@.take(before.len() as int) =~= prev.take(before.len() as int));
            assert forall|k: int| 0 <= k < i + 1 implies #[trigger] records_step(
                stages@[before.len() + k],
                prefix@,
                context.stage_records@[k],
            ) by {
                if k < i {
                    assert(stages@[before.len() + k] == prev[before.len() + k]);
                }
            }
        }
        i = i + 1;
    }
}

fn push_context_warnings(warnings: &mut Vec<Diagnostic>, context: &ExtractionContext)
    requires
        context_wf(*context),
    ensures
        warnings_appended(old(warnings)@, final(warnings)@, *context),
{
    let ghost before = warnings@;
    let mut i: usize = 0;
    while i < context.warnings.len()
        invariant
            i <= context.warnings@.len(),
            context_wf(*context),
            warnings@.len() == before.len() + i,
            warnings@.take(before.len() as int) == before,
            forall|k: int|
                0 <= k < i ==> #[trigger] reports_error(
                    warnings@[before.len() + k],
                    context.warnings@[k].code@,
                    context.warnings@[k],
                    "document"@,
                    "warning"@,
                ),
        decreases context.warnings@.len() - i,
    {
        let w = &context.warnings[i];
        assert(w.metadata.wf());
        let d = to_diagnostic(w.code.as_str(), w, "document", "warning");
        let ghost prev = warnings@;
        warnings.push(d);
        proof {
            assert(warnings@.take(before.len() as int) =~= prev.take(before.len() as int));
            assert forall|k: int| 0 <= k < i + 1 implies #[trigger] reports_error(
                warnings@[before.len() + k],
                context.warnings@[k].code@,
                context.warnings@[k],
                "document"@,
                "warning"@,
            ) by {
                if k < i {
                    assert(warnings@[before.len() + k] == prev[before.len() + k]);
                }
            }
        }
        i = i + 1;
    }
}

/// Records in the model what a conversion went through: one stage per step, named
/// `prefix_step`, and one document warning per warning met.
pub fn append_context_stages(model: &mut DocumentModel, context: &ExtractionContext, prefix: &str)
    requires
        context_wf(*context),
    ensures
        *final(model) == (DocumentModel {
            processing: ProcessingTrace {
                stages: final(model).processing.stages,
                ..old(model).processing
            },
            warnings: final(model).warnings,
            ..*old(model)
        }),
        stages_appended(old(model).processing.stages@, final(model).processing.stages@, *context, prefix@),
        warnings_appended(old(model).warnings@, final(model).warnings@, *context),
{
    push_context_stages(&mut model.processing.stages, context, prefix);
    push_context_warnings(&mut model.warnings, context);
}

/// `s` is a stage that succeeded, with this name, tool and duration and no metadata.
pub open spec fn is_stage(s: ProcessingStage, name: Seq<char>, tool: Seq<char>, duration_ms: u64) -> bool {
    &&& s.name@ == name
    &&& s.status == StageStatus::Succeeded
    &&& s.tool@ == tool
    &&& s.duration_ms == Some(duration_ms)
    &&& s.metadata@.len() == 0
}

/// The model of an RTF file before its conversion: the skeleton of the file, in
/// synthetic coordinates, with the conversion pipeline as its first stage.
pub fn rtf_base_model(classification: &FileClassification, processed_at: Option<String>) -> (m: DocumentModel)
    requires
        classification.input_path@.len() < 0x7fff_ffff_ffff_ffff,
    ensures
        model_identity(m, *classification, DocumentFormat::Rtf, ContentMode::Digital, processed_at),
        m.coordinate_system.unit@ == "synthetic"@,
        m.assets@.len() == 0,
        m.chunks@.len() == 0,
        m.errors@.len() == 0,
        m.warnings@.len() == 0,
        m.processing.status == ProcessingStatus::Complete,
        m.stats == stats_for(Seq::empty()),
        m.pages@.len() == 1,
        m.pages@[0].page_number == 1,
        m.pages@[0].page_type == PageType::DocumentPage,
        m.pages@[0].elements@.len() == 0,
        m.pages@[0].text@.len() == 0,
        m.processing.stages@.len() == 1,
        is_stage(m.processing.stages@[0], "rtf_conversion_pipeline"@, "conversion_pipeline"@, 1),
        m.processing.total_duration_ms.is_none(),
        crate::extractors::stats_fit_spec(m.pages@),
{
    let mut m = base_document_model(
        classification,
        DocumentFormat::Rtf,
        ContentMode::Digital,
        PageType::DocumentPage,
        processed_at,
    );
    proof {
        lemma_count_one_empty_page(m.pages@);
    }
    m.coordinate_system.unit = to_owned_string("synthetic");
    m.processing.stages.push(stage("rtf_conversion_pipeline", "conversion_pipeline", 1));
    m
}

/// The code under which a failed conversion is reported: a missing converter
/// (`CONVERTER_NOT_CONFIGURED`) means that no fallback was available.
pub open spec fn failure_code(code: Seq<char>) -> Seq<char> {
    if code == "CONVERTER_NOT_CONFIGURED"@ {
        "RTF_NO_FALLBACK_AVAILABLE"@
    } else {
        "RTF_CONVERSION_FAILED"@
    }
}

proof fn lemma_count_one_empty_page(pages: Seq<Page>)
    requires
        pages.len() == 1,
        pages[0].elements@.len() == 0,
        pages[0].text@.len() == 0,
    ensures
        count_pages(pages) == zero_count(),
{
    assert(pages.drop_last() =~= Seq::<Page>::empty());
    assert(count_pages(pages.drop_last()) == zero_count());
    assert(crate::extractors::word_count(pages[0].text@) == 0) by {
        assert(pages[0].text@ =~= Seq::<char>::empty());
    }
    let c = zero_count();
    let p = pages.last();
    assert(count_elements(StatsCount { chars: c.chars + p.text@.len(), words: c.words + crate::extractors::word_count(p.text@), ..c }, p.elements@) == c);
}

/// The model of an RTF file that no converter could convert: the error reported
/// under [`failure_code`], the status `Failed`, the conversion's steps and warnings,
/// and the routing stage that had nothing to route.
pub fn record_conversion_failure(model: &mut DocumentModel, error: &ConversionError, context: &ExtractionContext)
    requires
        context_wf(*context),
        error.metadata.wf(),
        crate::extractors::stats_fit_spec(old(model).pages@),
    ensures
        *final(model) == (DocumentModel {
            errors: final(model).errors,
            warnings: final(model).warnings,
            stats: stats_for(old(model).pages@),
            processing: ProcessingTrace {
                status: ProcessingStatus::Failed,
                stages: final(model).processing.stages,
                total_duration_ms: Some(final(model).processing.stages@.len() as u64),
                ..old(model).processing
            },
            ..*old(model)
        }),
        final(model).errors@.len() == old(model).errors@.len() + 1,
        final(model).errors@.drop_last() == old(model).errors@,
        reports_error(
            final(model).errors@.last(),
            failure_code(error.code@),
            *error,
            "document"@,
            "error"@,
        ),
        warnings_appended(old(model).warnings@, final(model).warnings@, *context),
        final(model).processing.stages@.len() > 0,
        stages_appended(
            old(model).processing.stages@,
            final(model).processing.stages@.drop_last(),
            *context,
            "rtf"@,
        ),
        is_stage(final(model).processing.stages@.last(), "rtf_route_converted_document"@, "router"@, 0),
{
    let code = if crate::json::str_eq(&error.code, "CONVERTER_NOT_CONFIGURED") {
        "RTF_NO_FALLBACK_AVAILABLE"
    } else {
        "RTF_CONVERSION_FAILED"
    };
    let d = to_diagnostic(code, error, "document", "error");
    model.errors.push(d);
    model.processing.status = ProcessingStatus::Failed;
    append_context_stages(model, context, "rtf");
    let ghost appended = model.processing.stages@;
    model.processing.stages.push(stage("rtf_route_converted_document", "router", 0));
    assert(model.processing.stages@.drop_last() =~= appended);
    let n = model.processing.stages.len();
    model.processing.total_duration_ms = Some(n as u64);
    update_stats(model);
}

/// The model of an RTF file converted to plain text: the skeleton of the file with
/// the converted text as the text and markdown of its one page.
pub fn rtf_text_model(classification: &FileClassification, processed_at: Option<String>, text: String) -> (m: DocumentModel)
    requires
        classification.input_path@.len() < 0x7fff_ffff_ffff_ffff,
    ensures
        crate::extractors::skeleton_model(
            m,
            *classification,
            DocumentFormat::Rtf,
            ContentMode::Digital,
            PageType::DocumentPage,
            processed_at,
        ),
        m.stats == stats_for(Seq::empty()),
        m.pages@.len() == 1,
        m.pages@[0].page_number == 1,
        m.pages@[0].page_type == PageType::DocumentPage,
        m.pages@[0].elements@.len() == 0,
        m.pages@[0].text@ == text@,
        m.pages@[0].markdown@ == text@,
        m.processing.stages@.len() == 0,
        m.processing.total_duration_ms.is_none(),
{
    let mut m = base_document_model(
        classification,
        DocumentFormat::Rtf,
        ContentMode::Digital,
        PageType::DocumentPage,
        processed_at,
    );
    let mut pages: Vec<Page> = Vec::new();
    std::mem::swap(&mut pages, &mut m.pages);
    let mut page = pages.remove(0);
    page.text = clone_string(&text);
    page.markdown = text;
    pages.insert(0, page);
    m.pages = pages;
    m
}

/// `p` says that an element was read from the converted file `c`.
pub open spec fn converted_provenance(p: Provenance, c: ConvertedDocument) -> bool {
    &&& p.method@ == "converted"@
    &&& p.tool@ == c.converter_name@ + "+"@ + tool_suffix(c.target)
    &&& p.stage@ == extraction_stage_name(c.target)
    &&& p.source_kind.is_some() && p.source_kind.unwrap()@ == "converted_file"@
    &&& p.source_value.is_some() && p.source_value.unwrap()@ == c.path@
}

/// `n` is the element `o` with the provenance of the converted file `c`.
pub open spec fn converted_element(o: Element, n: Element, c: ConvertedDocument) -> bool {
    &&& n == Element { provenance: n.provenance, ..o }
    &&& converted_provenance(n.provenance, c)
}

/// `n` is the page `o` with each element given the provenance of `c`.
pub open spec fn converted_page(o: Page, n: Page, c: ConvertedDocument) -> bool {
    &&& n == Page { elements: n.elements, ..o }
    &&& n.elements@.len() == o.elements@.len()
    &&& forall|k: int|
        0 <= k < o.elements@.len() ==> #[trigger] converted_element(o.elements@[k], n.elements@[k], c)
}

/// The source descriptions `a` and `b` say the same.
pub open spec fn same_source(a: SourceInfo, b: SourceInfo) -> bool {
    &&& a.uri@ == b.uri@
    &&& a.filename@ == b.filename@
    &&& a.extension@ == b.extension@
    &&& a.mime_type@ == b.mime_type@
    &&& a.size_bytes == b.size_bytes
    &&& a.sha256.is_some() == b.sha256.is_some()
    &&& (a.sha256.is_some() ==> a.sha256.unwrap()@ == b.sha256.unwrap()@)
    &&& a.processed_at.is_some() == b.processed_at.is_some()
    &&& (a.processed_at.is_some() ==> a.processed_at.unwrap()@ == b.processed_at.unwrap()@)
}

fn copy_source(s: &SourceInfo) -> (r: SourceInfo)
    ensures
        same_source(r, *s),
{
    SourceInfo {
        uri: clone_string(&s.uri),
        filename: clone_string(&s.filename),
        extension: clone_string(&s.extension),
        mime_type: clone_string(&s.mime_type),
        size_bytes: s.size_bytes,
        sha256: clone_opt_string(&s.sha256),
        processed_at: clone_opt_string(&s.processed_at),
    }
}

fn converted_provenance_exec(c: &ConvertedDocument) -> (p: Provenance)
    ensures
        converted_provenance(p, *c),
{
    let mut tool: Vec<char> = Vec::new();
    push_str_chars(&mut tool, c.converter_name.as_str());
    push_str_chars(&mut tool, "+");
    push_str_chars(&mut tool, tool_suffix_for_target(c.target));
    Provenance {
        method: to_owned_string("converted"),
        tool: string_from_chars(tool.as_slice()),
        stage: to_owned_string(extraction_stage_name_exec(c.target)),
        source_kind: Some(to_owned_string("converted_file")),
        source_value: Some(clone_string(&c.path)),
    }
}

proof fn lemma_count_elements_same_types(c: StatsCount, a: Seq<Element>, b: Seq<Element>)
    requires
        a.len() == b.len(),
        forall|k: int| 0 <= k < a.len() ==> (#[trigger] a[k]).element_type == b[k].element_type,
    ensures
        count_elements(c, a) == count_elements(c, b),
    decreases a.len(),
{
    if a.len() > 0 {
        lemma_count_elements_same_types(c, a.drop_last(), b.drop_last());
        assert(a.last().element_type == b.last().element_type);
    }
}

proof fn lemma_count_converted_pages(a: Seq<Page>, b: Seq<Page>, c: ConvertedDocument)
    requires
        a.len() == b.len(),
        forall|i: int| 0 <= i < a.len() ==> #[trigger] converted_page(a[i], b[i], c),
    ensures
        count_pages(a) == count_pages(b),
    decreases a.len(),
{
    if a.len() > 0 {
        let n = a.len() - 1;
        assert forall|i: int| 0 <= i < n implies #[trigger] converted_page(a.drop_last()[i], b.drop_last()[i], c) by {
            assert(converted_page(a[i], b[i], c));
        }
        lemma_count_converted_pages(a.drop_last(), b.drop_last(), c);
        let pa = a.last();
        let pb = b.last();
        assert(converted_page(a[n], b[n], c));
        assert forall|k: int| 0 <= k < pa.elements@.len() implies (#[trigger] pa.elements@[k]).element_type
            == pb.elements@[k].element_type by {
            assert(converted_element(pa.elements@[k], pb.elements@[k], c));
        }
        let cc = count_pages(a.drop_last());
        lemma_count_elements_same_types(
            StatsCount { chars: cc.chars + pa.text@.len(), words: cc.words + crate::extractors::word_count(pa.text@), ..cc },
            pa.elements@,
            pb.elements@,
        );
    }
}

fn convert_pages(pages: &mut Vec<Page>, c: &ConvertedDocument)
    ensures
        final(pages)@.len() == old(pages)@.len(),
        forall|i: int| 0 <= i < old(pages)@.len() ==> #[trigger] converted_page(old(pages)@[i], final(pages)@[i], *c),
{
    let mut taken: Vec<Page> = Vec::new();
    std::mem::swap(&mut taken, pages);
    let ghost orig = taken@;
    let total: usize = taken.len();
    let mut out: Vec<Page> = Vec::new();
    let mut i: usize = 0;
    while taken.len() > 0
        invariant
            i + taken@.len() == orig.len(),
            orig.len() == total,
            taken@ == orig.skip(i as int),
            out@.len() == i,
            forall|k: int| 0 <= k < i ==> #[trigger] converted_page(orig[k], out@[k], *c),
        decreases taken@.len(),
    {
        let mut page = taken.remove(0);
        assert(page == orig[i as int]);
        let mut elems: Vec<Element> = Vec::new();
        std::mem::swap(&mut elems, &mut page.elements);
        let ghost orig_elems = elems@;
        let count: usize = elems.len();
        let mut done: Vec<Element> = Vec::new();
        let mut j: usize = 0;
        while elems.len() > 0
            invariant
                j + elems@.len() == orig_elems.len(),
                orig_elems.len() == count,
                elems@ == orig_elems.skip(j as int),
                done@.len() == j,
                forall|k: int| 0 <= k < j ==> #[trigger] converted_element(orig_elems[k], done@[k], *c),
            decreases elems@.len(),
        {
            let mut e = elems.remove(0);
            assert(e == orig_elems[j as int]);
            e.provenance = converted_provenance_exec(c);
            done.push(e);
            j = j + 1;
            assert(orig_elems.skip(j as int) =~= orig_elems.skip(j - 1).drop_first());
        }
        page.elements = done;
        out.push(page);
        i = i + 1;
        assert(orig.skip(i as int) =~= orig.skip(i - 1).drop_first());
    }
    *pages = out;
}

/// `stages` is what an RTF model records after a conversion to `c`: the
/// conversion pipeline first, then the stages of the model read from the converted
/// file, the conversion itself, the routing of the converted file, and the steps of
/// the conversion.
pub open spec fn converted_stages(
    before: Seq<ProcessingStage>,
    stages: Seq<ProcessingStage>,
    c: ConvertedDocument,
    context: ExtractionContext,
) -> bool {
    let n = before.len() as int;
    &&& stages.len() == n + 3 + context.stage_records@.len()
    &&& is_stage(stages[0], "rtf_conversion_pipeline"@, "conversion_pipeline"@, 1)
    &&& stages.subrange(1, n + 1) == before
    &&& is_stage(stages[n + 1], conversion_stage_name(c.target), c.converter_name@, c.duration_ms)
    &&& is_stage(stages[n + 2], "rtf_route_converted_document"@, "router"@, 1)
    &&& stages_appended(stages.take(n + 3), stages, context, "rtf"@)
}

/// Turns the model read from the converted file into the model of the RTF file:
/// the RTF file's source and format, every element's provenance pointing at the
/// converted file, the conversion's stages and warnings recorded, the total
/// duration counted in stages, and the statistics recounted.
pub fn adopt_converted_model(
    routed: &mut DocumentModel,
    fallback: &DocumentModel,
    converted: &ConvertedDocument,
    context: &ExtractionContext,
)
    requires
        context_wf(*context),
        crate::extractors::stats_fit_spec(old(routed).pages@),
    ensures
        *final(routed) == (DocumentModel {
            source: final(routed).source,
            document_profile: DocumentProfile { format: DocumentFormat::Rtf, ..old(routed).document_profile },
            pages: final(routed).pages,
            warnings: final(routed).warnings,
            stats: stats_for(final(routed).pages@),
            processing: ProcessingTrace {
                stages: final(routed).processing.stages,
                total_duration_ms: Some(final(routed).processing.stages@.len() as u64),
                ..old(routed).processing
            },
            ..*old(routed)
        }),
        same_source(final(routed).source, fallback.source),
        final(routed).pages@.len() == old(routed).pages@.len(),
        forall|i: int|
            0 <= i < old(routed).pages@.len() ==> #[trigger] converted_page(
                old(routed).pages@[i],
                final(routed).pages@[i],
                *converted,
            ),
        stats_for(final(routed).pages@) == stats_for(old(routed).pages@),
        converted_stages(old(routed).processing.stages@, final(routed).processing.stages@, *converted, *context),
        warnings_appended(old(routed).warnings@, final(routed).warnings@, *context),
{
    let ghost before = routed.processing.stages@;
    let ghost old_pages = routed.pages@;
    routed.source = copy_source(&fallback.source);
    routed.document_profile.format = DocumentFormat::Rtf;
    routed.processing.stages.insert(0, stage("rtf_conversion_pipeline", "conversion_pipeline", 1));
    routed.processing.stages.push(
        stage(conversion_stage_name_exec(converted.target), converted.converter_name.as_str(), converted.duration_ms),
    );
    routed.processing.stages.push(stage("rtf_route_converted_document", "router", 1));
    let ghost head = routed.processing.stages@;
    assert(head.subrange(1, before.len() as int + 1) =~= before);
    append_context_stages(routed, context, "rtf");
    proof {
        let fin = routed.processing.stages@;
        let n = before.len() as int;
        assert(fin.take(n + 3) == head);
        assert(fin[0] == head[0]);
        assert(fin[n + 1] == head[n + 1]);
        assert(fin[n + 2] == head[n + 2]);
        assert(fin.subrange(1, n + 1) =~= head.subrange(1, n + 1));
    }
    convert_pages(&mut routed.pages, converted);
    proof {
        lemma_count_converted_pages(old_pages, routed.pages@, *converted);
    }
    let n = routed.processing.stages.len();
    routed.processing.total_duration_ms = Some(n as u64);
    update_stats(routed);
}

} // verus!
