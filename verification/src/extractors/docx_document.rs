//! The model of a Word document: the candidates of notes, comments, headers and
//! footers, and the document assembled from what reading the package gave.

use vstd::prelude::*;
use crate::classifier::FileClassification;
use crate::extractors::docx::{
    any_kind, any_of_kind, estimate_lines, fill_fits, lines_needed, needs_of, paginate_candidates, paginated,
    CandidateElement, DocxCandidates, DocxOptions,
};
use crate::extractors::rtf::is_stage;
use crate::extractors::{
    base_document_model, default_confidence, diagnostic, document_notice, model_identity, provenance,
    register_assets, registered_assets, stage, stats_fit_spec, stats_for, update_stats,
};
use crate::model::{
    Asset, ContentMode, Diagnostic, DocumentFormat, DocumentModel, Element, ElementType, Page, PageType,
    ProcessingStatus,
};
use crate::text::{is_blank, push_str_chars, str_is_blank, string_from_chars, to_owned_string, views};

verus! {

/// The texts that are not blank, in order.
pub open spec fn nonblank_texts(texts: Seq<Seq<char>>) -> Seq<Seq<char>>
    decreases texts.len(),
{
    if texts.len() == 0 {
        Seq::empty()
    } else {
        let rest = nonblank_texts(texts.drop_last());
        if is_blank(texts.last()) {
            rest
        } else {
            rest.push(texts.last())
        }
    }
}

/// `c` is the note `text` of the part `entry`: an element of kind `kind` with tag
/// `tag` and role `role`, its text, markdown and normalized text all `text`, the
/// part as its raw value and source.
pub open spec fn note_candidate(
    c: CandidateElement,
    text: Seq<char>,
    entry: Seq<char>,
    kind: ElementType,
    tag: Seq<char>,
    role: Seq<char>,
) -> bool {
    let e = c.element;
    &&& e.element_id@.len() == 0
    &&& e.element_type == kind
    &&& e.tag matches Some(t) && t@ == tag
    &&& e.role matches Some(t) && t@ == role
    &&& e.reading_order.is_none() && e.global_order.is_none() && e.bbox.is_none()
    &&& e.text matches Some(t) && t@ == text
    &&& e.markdown matches Some(t) && t@ == text
    &&& e.html.is_none()
    &&& e.normalized_text matches Some(t) && t@ == text
    &&& e.raw matches Some(t) && t@ == entry
    &&& e.items@.len() == 0
    &&& !e.exclude_from_chunks
    &&& e.table_linearized@.len() == 0
    &&& e.provenance.method@ == "native"@
    &&& e.provenance.tool@ == "docx_ooxml_parser"@
    &&& e.provenance.stage@ == "docx_extract_notes_comments"@
    &&& e.provenance.source_kind matches Some(t) && t@ == "xml"@
    &&& e.provenance.source_value matches Some(t) && t@ == entry
    &&& e.confidence_permille == 990
    &&& e.warnings@.len() == 0
    &&& e.extra@.len() == 0
    &&& c.estimated_lines == lines_needed(text)
}

/// The candidates of the (normalized) texts of the part `entry`, a footnote,
/// endnote, comment, header or footer part: one per text that is not blank, in
/// order (see [`note_candidate`]).
pub fn note_candidates(
    texts: &Vec<String>,
    entry: &str,
    kind: ElementType,
    tag: &str,
    role: &str,
) -> (r: Vec<CandidateElement>)
    ensures
        r@.len() == nonblank_texts(views(texts@)).len(),
        forall|i: int|
            0 <= i < r@.len() ==> note_candidate(
                #[trigger] r@[i],
                nonblank_texts(views(texts@))[i],
                entry@,
                kind,
                tag@,
                role@,
            ),
{
    let ghost all = views(texts@);
    let mut out: Vec<CandidateElement> = Vec::new();
    let mut i: usize = 0;
    while i < texts.len()
        invariant
            i <= texts@.len(),
            all == views(texts@),
            out@.len() == nonblank_texts(all.take(i as int)).len(),
            forall|k: int|
                0 <= k < out@.len() ==> note_candidate(
                    #[trigger] out@[k],
                    nonblank_texts(all.take(i as int))[k],
                    entry@,
                    kind,
                    tag@,
                    role@,
                ),
        decreases texts@.len() - i,
    {
        proof {
            assert(all.take(i + 1).drop_last() =~= all.take(i as int));
            assert(all.take(i + 1).last() == texts@[i as int]@);
        }
        let text = &texts[i];
        if !str_is_blank(text.as_str()) {
            let ghost o0 = out@;
            out.push(
                CandidateElement {
                    element: Element {
                        element_id: String::new(),
                        element_type: kind,
                        tag: Some(to_owned_string(tag)),
                        role: Some(to_owned_string(role)),
                        reading_order: None,
                        global_order: None,
                        bbox: None,
                        text: Some(text.clone()),
                        markdown: Some(text.clone()),
                        html: None,
                        normalized_text: Some(text.clone()),
                        raw: Some(to_owned_string(entry)),
                        items: Vec::new(),
                        exclude_from_chunks: false,
                        table_linearized: Vec::new(),
                        provenance: provenance("docx_ooxml_parser", "docx_extract_notes_comments", "xml", entry),
                        confidence_permille: default_confidence(),
                        warnings: Vec::new(),
                        extra: Vec::new(),
                    },
                    estimated_lines: estimate_lines(text.as_str()),
                },
            );
            proof {
                let n1 = nonblank_texts(all.take(i + 1));
                assert forall|k: int| 0 <= k < out@.len() implies note_candidate(
                    #[trigger] out@[k],
                    n1[k],
                    entry@,
                    kind,
                    tag@,
                    role@,
                ) by {
                    if k < o0.len() {
                        assert(out@[k] == o0[k]);
                    }
                }
            }
        }
        i = i + 1;
    }
    assert(all.take(i as int) =~= all);
    out
}

/// How the relationships of the document part were read.
pub enum DocxRelationships {
    Parsed,
    /// The part is missing or could not be read.
    Missing,
    /// The part did not parse, for this reason.
    Unparsable(String),
}

/// What reading an opened package gave: how its relationships, styles and
/// numbering parts were read (an error text where the last two failed), the
/// candidates of the body (see `docx_candidates`), the candidates of the notes,
/// comments, headers and footers that are extracted, in that order, and the assets
/// stored for the body's images.
pub struct DocxRead {
    pub relationships: DocxRelationships,
    pub styles_error: Option<String>,
    pub numbering_error: Option<String>,
    pub body: DocxCandidates,
    pub notes: Vec<CandidateElement>,
    pub assets: Vec<Asset>,
}

/// What opening the package gave.
pub enum DocxPackage {
    /// The package could not be opened, for this reason.
    Unopenable(String),
    /// The package has no `word/document.xml`.
    MissingDocumentXml,
    Read(DocxRead),
}

/// The warnings, as `(code, message)`, of the parts read before the body.
pub open spec fn docx_setup_notices(r: DocxRead) -> Seq<(Seq<char>, Seq<char>)> {
    let rel: Seq<(Seq<char>, Seq<char>)> = match r.relationships {
        DocxRelationships::Parsed => Seq::empty(),
        DocxRelationships::Missing => seq![(
            "DOCX_MEDIA_RELATIONSHIP_MISSING"@,
            "Не найден файл связей word/_rels/document.xml.rels; извлечение медиа может быть неполным."@,
        )],
        DocxRelationships::Unparsable(e) => seq![(
            "DOCX_MEDIA_RELATIONSHIP_MISSING"@,
            "Не удалось разобрать relationships DOCX: "@ + e@,
        )],
    };
    let sty: Seq<(Seq<char>, Seq<char>)> = match r.styles_error {
        Some(e) => seq![("DOCX_STYLE_PARSE_FAILED"@, "Не удалось разобрать стили DOCX: "@ + e@)],
        None => Seq::empty(),
    };
    let num: Seq<(Seq<char>, Seq<char>)> = match r.numbering_error {
        Some(e) => seq![(
            "DOCX_NUMBERING_PARSE_FAILED"@,
            "Не удалось разобрать настройки нумерации DOCX. Списки будут восстановлены приближенно: "@ + e@,
        )],
        None => Seq::empty(),
    };
    rel + sty + num
}

/// The line limit of a synthetic page: the configured one, at least 20.
pub open spec fn docx_line_limit(o: DocxOptions) -> nat {
    if o.synthetic_page_line_limit >= 20 {
        o.synthetic_page_line_limit as nat
    } else {
        20
    }
}

/// All the candidates of the document: the body's, then the notes'.
pub open spec fn docx_all_candidates(r: DocxRead) -> Seq<CandidateElement> {
    r.body.candidates@ + r.notes@
}

/// Some page holds an element of kind `t`.
pub open spec fn pages_have(pages: Seq<Page>, t: ElementType) -> bool {
    exists|p: int| 0 <= p < pages.len() && any_of_kind(#[trigger] pages[p].elements@, t)
}

/// The stages of a document whose body was read.
pub open spec fn docx_stages(st: Seq<crate::model::ProcessingStage>) -> bool {
    &&& st.len() == 10
    &&& is_stage(st[0], "docx_open_package"@, "docx_ooxml_parser"@, 1)
    &&& is_stage(st[1], "docx_parse_relationships"@, "docx_ooxml_parser"@, 1)
    &&& is_stage(st[2], "docx_parse_styles"@, "docx_ooxml_parser"@, 1)
    &&& is_stage(st[3], "docx_parse_numbering"@, "docx_ooxml_parser"@, 1)
    &&& is_stage(st[4], "docx_extract_paragraphs"@, "docx_ooxml_parser"@, 1)
    &&& is_stage(st[5], "docx_extract_lists"@, "docx_ooxml_parser"@, 1)
    &&& is_stage(st[6], "docx_extract_tables"@, "docx_ooxml_parser"@, 1)
    &&& is_stage(st[7], "docx_extract_media"@, "docx_ooxml_parser"@, 1)
    &&& is_stage(st[8], "docx_extract_notes_comments"@, "docx_ooxml_parser"@, 1)
    &&& is_stage(st[9], "docx_chunking"@, "semantic_chunker"@, 0)
}

/// A model that kept its first empty page, holds no asset or warning and is
/// partial with the one error `code`, `message`, after the opening of the package
/// where `opened`.
pub open spec fn docx_failed(m: DocumentModel, code: Seq<char>, message: Seq<char>, opened: bool) -> bool {
    &&& m.pages@.len() == 1
    &&& m.pages@[0].elements@.len() == 0
    &&& m.assets@.len() == 0
    &&& m.warnings@.len() == 0
    &&& m.errors@.len() == 1
    &&& document_notice(m.errors@[0], "error"@, code, message)
    &&& m.processing.status == ProcessingStatus::Partial
    &&& m.processing.stages@.len() == (if opened { 1int } else { 0int })
    &&& opened ==> is_stage(m.processing.stages@[0], "docx_open_package"@, "docx_ooxml_parser"@, 1)
    &&& m.stats == stats_for(Seq::empty())
}

/// `m` is the model of the Word document `classification` read with options `o`,
/// opening it having given `package`.
pub open spec fn docx_document(
    m: DocumentModel,
    classification: FileClassification,
    o: DocxOptions,
    package: DocxPackage,
    processed_at: Option<String>,
) -> bool {
    &&& model_identity(m, classification, DocumentFormat::Docx, ContentMode::Digital, processed_at)
    &&& m.coordinate_system.unit@ == "synthetic"@
    &&& m.chunks@.len() == 0
    &&& if !o.enabled {
        &&& m.pages@.len() == 1
        &&& m.pages@[0].elements@.len() == 0
        &&& m.assets@.len() == 0
        &&& m.errors@.len() == 0
        &&& m.warnings@.len() == 1
        &&& document_notice(
            m.warnings@[0],
            "warning"@,
            "DOCX_EXTRACTION_DISABLED"@,
            "DOCX extraction disabled by pipeline.office.enabled=false"@,
        )
        &&& m.processing.status == ProcessingStatus::Complete
        &&& m.processing.stages@.len() == 0
        &&& m.stats == stats_for(Seq::empty())
    } else {
        match package {
            DocxPackage::Unopenable(err) => docx_failed(
                m,
                "DOCX_INVALID_PACKAGE"@,
                "Не удалось открыть DOCX пакет: "@ + err@,
                false,
            ),
            DocxPackage::MissingDocumentXml => docx_failed(
                m,
                "DOCX_DOCUMENT_XML_MISSING"@,
                "В DOCX отсутствует обязательный файл word/document.xml"@,
                true,
            ),
            DocxPackage::Read(r) => {
                let notices = docx_setup_notices(r);
                &&& paginated(m.pages@, docx_all_candidates(r), docx_line_limit(o))
                &&& m.warnings@.len() == notices.len() + r.body.warnings@.len()
                &&& forall|j: int|
                    0 <= j < notices.len() ==> document_notice(
                        #[trigger] m.warnings@[j],
                        "warning"@,
                        notices[j].0,
                        notices[j].1,
                    )
                &&& forall|j: int|
                    0 <= j < r.body.warnings@.len() ==> m.warnings@[notices.len() + j] == #[trigger] r.body.warnings@[j]
                &&& m.errors@.len() == 0
                &&& m.assets@ == registered_assets(r.assets@)
                &&& m.document_profile.has_images == (m.assets@.len() > 0)
                &&& m.document_profile.has_tables == pages_have(m.pages@, ElementType::Table)
                &&& m.document_profile.has_formulas == pages_have(m.pages@, ElementType::Formula)
                &&& m.document_profile.document_type_guess matches Some(g) && g@ == "word_document"@
                &&& m.processing.status == ProcessingStatus::Complete
                &&& docx_stages(m.processing.stages@)
                &&& m.stats == stats_for(m.pages@)
                &&& m.processing.total_duration_ms == Some(10u64)
            },
        }
    }
}

/// Whether any page holds an element of kind `t`.
fn pages_have_kind(pages: &Vec<Page>, t: ElementType) -> (r: bool)
    ensures
        r == pages_have(pages@, t),
{
    let mut i: usize = 0;
    while i < pages.len()
        invariant
            i <= pages@.len(),
            forall|p: int| 0 <= p < i ==> !any_of_kind(#[trigger] pages@[p].elements@, t),
        decreases pages@.len() - i,
    {
        if any_kind(&pages[i].elements, t) {
            return true;
        }
        i = i + 1;
    }
    false
}

fn prefixed(prefix: &str, s: &String) -> (r: String)
    ensures
        r@ == prefix@ + s@,
{
    let mut v: Vec<char> = Vec::new();
    push_str_chars(&mut v, prefix);
    push_str_chars(&mut v, s.as_str());
    string_from_chars(v.as_slice())
}

/// The warnings of the parts read before the body.
fn setup_warnings(r: &DocxRead) -> (w: Vec<Diagnostic>)
    ensures
        w@.len() == docx_setup_notices(*r).len(),
        forall|j: int|
            0 <= j < w@.len() ==> document_notice(
                #[trigger] w@[j],
                "warning"@,
                docx_setup_notices(*r)[j].0,
                docx_setup_notices(*r)[j].1,
            ),
{
    let mut w: Vec<Diagnostic> = Vec::new();
    match &r.relationships {
        DocxRelationships::Parsed => {},
        DocxRelationships::Missing => {
            w.push(
                diagnostic(
                    "DOCX_MEDIA_RELATIONSHIP_MISSING",
                    "warning",
                    "document",
                    "Не найден файл связей word/_rels/document.xml.rels; извлечение медиа может быть неполным.",
                ),
            );
        },
        DocxRelationships::Unparsable(e) => {
            w.push(
                diagnostic(
                    "DOCX_MEDIA_RELATIONSHIP_MISSING",
                    "warning",
                    "document",
                    prefixed("Не удалось разобрать relationships DOCX: ", e).as_str(),
                ),
            );
        },
    }
    let ghost w1 = w@;
    match &r.styles_error {
        Some(e) => {
            w.push(diagnostic("DOCX_STYLE_PARSE_FAILED", "warning", "document", prefixed("Не удалось разобрать стили DOCX: ", e).as_str()));
        },
        None => {},
    }
    let ghost w2 = w@;
    match &r.numbering_error {
        Some(e) => {
            w.push(
                diagnostic(
                    "DOCX_NUMBERING_PARSE_FAILED",
                    "warning",
                    "document",
                    prefixed("Не удалось разобрать настройки нумерации DOCX. Списки будут восстановлены приближенно: ", e).as_str(),
                ),
            );
        },
        None => {},
    }
    proof {
        let n = docx_setup_notices(*r);
        assert forall|j: int| 0 <= j < w@.len() implies document_notice(#[trigger] w@[j], "warning"@, n[j].0, n[j].1) by {
            if j < w1.len() {
                assert(w@[j] == w1[j]);
                assert(w2[j] == w1[j]);
            } else if j < w2.len() {
                assert(w@[j] == w2[j]);
            }
        }
    }
    w
}

/// The model of a Word document from what opening and reading it gave. When
/// extraction is disabled the package is not looked at and the model says so in a
/// warning. A package that does not open, or has no `word/document.xml`, leaves a
/// partial model with one error. Otherwise the candidates of the body, then those
/// of the notes, are laid out on synthetic pages of the configured line limit (at
/// least 20); the warnings are those of the parts read before the body, then those
/// of the body's images; the stored assets are kept once per id; and the profile
/// tells whether images, tables and formulas were found.
#[verifier::spinoff_prover]
#[verifier::rlimit(60)]
pub fn build_docx_document(
    classification: &FileClassification,
    options: &DocxOptions,
    package: DocxPackage,
    processed_at: Option<String>,
) -> (m: DocumentModel)
    requires
        classification.input_path@.len() < 0x7fff_ffff_ffff_ffff,
        package matches DocxPackage::Read(r) ==> {
            let cs = docx_all_candidates(r);
            let lim = docx_line_limit(*options);
            &&& cs.len() < u32::MAX
            &&& fill_fits(needs_of(cs), lim)
            &&& forall|pages: Seq<Page>| #[trigger] paginated(pages, cs, lim) ==> stats_fit_spec(pages)
        },
    ensures
        docx_document(m, *classification, *options, package, processed_at),
{
    let ghost pkg = package;
    let mut m = base_document_model(
        classification,
        DocumentFormat::Docx,
        ContentMode::Digital,
        PageType::DocumentPage,
        processed_at,
    );
    m.coordinate_system.unit = to_owned_string("synthetic");
    if !options.enabled {
        m.warnings.push(
            diagnostic("DOCX_EXTRACTION_DISABLED", "warning", "document", "DOCX extraction disabled by pipeline.office.enabled=false"),
        );
        return m;
    }
    match package {
        DocxPackage::Unopenable(err) => {
            m.errors.push(diagnostic("DOCX_INVALID_PACKAGE", "error", "document", prefixed("Не удалось открыть DOCX пакет: ", &err).as_str()));
            m.processing.status = ProcessingStatus::Partial;
            m
        },
        DocxPackage::MissingDocumentXml => {
            m.processing.stages.push(stage("docx_open_package", "docx_ooxml_parser", 1));
            m.errors.push(
                diagnostic("DOCX_DOCUMENT_XML_MISSING", "error", "document", "В DOCX отсутствует обязательный файл word/document.xml"),
            );
            m.processing.status = ProcessingStatus::Partial;
            m
        },
        DocxPackage::Read(r) => {
            let ghost r0 = r;
            m.processing.stages.push(stage("docx_open_package", "docx_ooxml_parser", 1));
            let mut warnings = setup_warnings(&r);
            m.processing.stages.push(stage("docx_parse_relationships", "docx_ooxml_parser", 1));
            m.processing.stages.push(stage("docx_parse_styles", "docx_ooxml_parser", 1));
            m.processing.stages.push(stage("docx_parse_numbering", "docx_ooxml_parser", 1));
            let DocxRead { relationships: _, styles_error: _, numbering_error: _, body, notes, assets } = r;
            let DocxCandidates { candidates, warnings: body_warnings } = body;
            let ghost w0 = warnings@;
            let mut bw = body_warnings;
            let mut j: usize = 0;
            let ghost bv = bw@;
            assert(bv.len() == bw.len());
            while bw.len() > 0
                invariant
                    j + bw@.len() == bv.len(),
                    bv.len() <= usize::MAX,
                    bw@ == bv.skip(j as int),
                    warnings@ == w0 + bv.take(j as int),
                decreases bw@.len(),
            {
                assert(bv.skip(j as int)[0] == bv[j as int]);
                let d = bw.remove(0);
                warnings.push(d);
                j = j + 1;
                assert(bv.take(j as int) =~= bv.take(j - 1).push(bv[j - 1]));
                assert(bv.skip(j as int) =~= bv.skip(j - 1).drop_first());
            }
            assert(bv.take(j as int) =~= bv);
            let mut cands = candidates;
            let mut ns = notes;
            let ghost cv = cands@;
            let ghost nv = ns@;
            let mut q: usize = 0;
            assert(nv.len() == ns.len());
            while ns.len() > 0
                invariant
                    q + ns@.len() == nv.len(),
                    nv.len() <= usize::MAX,
                    ns@ == nv.skip(q as int),
                    cands@ == cv + nv.take(q as int),
                decreases ns@.len(),
            {
                assert(nv.skip(q as int)[0] == nv[q as int]);
                let c = ns.remove(0);
                cands.push(c);
                q = q + 1;
                assert(nv.take(q as int) =~= nv.take(q - 1).push(nv[q - 1]));
                assert(nv.skip(q as int) =~= nv.skip(q - 1).drop_first());
            }
            assert(nv.take(q as int) =~= nv);
            assert(cands@ == docx_all_candidates(r0));
            let limit = if options.synthetic_page_line_limit >= 20 { options.synthetic_page_line_limit } else { 20 };
            let notes_count = q;
            m.processing.stages.push(stage("docx_extract_paragraphs", "docx_ooxml_parser", 1));
            m.processing.stages.push(stage("docx_extract_lists", "docx_ooxml_parser", 1));
            m.processing.stages.push(stage("docx_extract_tables", "docx_ooxml_parser", 1));
            m.processing.stages.push(stage("docx_extract_media", "docx_ooxml_parser", 1));
            m.processing.stages.push(stage("docx_extract_notes_comments", "docx_ooxml_parser", 1));
            m.processing.stages.push(stage("docx_chunking", "semantic_chunker", 0));
            let pages = paginate_candidates(cands, limit, notes_count);
            let ghost pv = pages@;
            assert(stats_fit_spec(pv));
            let has_tables = pages_have_kind(&pages, ElementType::Table);
            let has_formulas = pages_have_kind(&pages, ElementType::Formula);
            m.pages = pages;
            m.assets = register_assets(assets);
            m.warnings = warnings;
            m.document_profile.has_images = m.assets.len() > 0;
            m.document_profile.has_tables = has_tables;
            m.document_profile.has_formulas = has_formulas;
            m.document_profile.document_type_guess = Some(to_owned_string("word_document"));
            update_stats(&mut m);
            m.processing.total_duration_ms = Some(m.processing.stages.len() as u64);
            proof {
                let n = docx_setup_notices(r0);
                assert forall|k: int| 0 <= k < r0.body.warnings@.len() implies m.warnings@[n.len() + k] == #[trigger] r0.body.warnings@[k] by {
                    assert(m.warnings@[n.len() + k] == bv[k]);
                }
                assert forall|k: int| 0 <= k < n.len() implies document_notice(#[trigger] m.warnings@[k], "warning"@, n[k].0, n[k].1) by {
                    assert(m.warnings@[k] == w0[k]);
                }
            }
            m
        },
    }
}

} // verus!
