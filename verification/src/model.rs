//! The canonical document model that every extractor fills.
//!
//! Coordinates are integers in the page's unit (callers that hold fractional
//! coordinates round them before building the model); confidences are integers
//! in permille.

use vstd::prelude::*;

verus! {

#[derive(Clone, Copy, Debug, PartialEq, Eq, Structural)]
pub enum ElementType {
    Text,
    TextOcr,
    Paragraph,
    Heading,
    Blockquote,
    Code,
    List,
    ListItem,
    Image,
    PageImage,
    Table,
    Formula,
    Chart,
    Header,
    Footer,
    Footnote,
    Caption,
    Watermark,
    Unknown,
}

#[derive(Clone, Copy, Debug, PartialEq, Eq, Structural)]
pub enum DocumentFormat {
    Pdf,
    Docx,
    Doc,
    Html,
    Md,
    Rtf,
    Image,
    Pptx,
    Txt,
    Xlsx,
    Unknown,
}

#[derive(Clone, Copy, Debug, PartialEq, Eq, Structural)]
pub enum ContentMode {
    Digital,
    Scanned,
    Hybrid,
    PlainText,
    Image,
    Spreadsheet,
    Sheet,
    Presentation,
    Slide,
    Unknown,
}

#[derive(Clone, Copy, Debug, PartialEq, Eq, Structural)]
pub enum PageType {
    DocumentPage,
    SyntheticTextPage,
    Image,
    Sheet,
    Slide,
}

#[derive(Clone, Copy, Debug, PartialEq, Eq, Structural)]
pub enum StageStatus {
    Succeeded,
    Warning,
    Error,
    Skipped,
}

#[derive(Clone, Copy, Debug, PartialEq, Eq, Structural)]
pub enum ProcessingStatus {
    Complete,
    Partial,
    Failed,
}

/// An axis-aligned box `[x0, y0, x1, y1]`.
#[derive(Clone, Copy, Debug, PartialEq, Eq, Structural)]
pub struct BBox {
    pub x0: i64,
    pub y0: i64,
    pub x1: i64,
    pub y1: i64,
}

/// A warning or error attached to a document, a page, an element or a stage.
#[derive(Debug)]
pub struct Diagnostic {
    pub code: String,
    pub severity: String,
    pub scope: String,
    pub page_number: Option<u32>,
    pub element_id: Option<String>,
    pub message: String,
    pub recoverable: bool,
    pub extra: Vec<(String, String)>,
}

/// Where an element came from.
#[derive(Debug)]
pub struct Provenance {
    pub method: String,
    pub tool: String,
    pub stage: String,
    pub source_kind: Option<String>,
    pub source_value: Option<String>,
}

/// One content element of a page.
#[derive(Debug)]
pub struct Element {
    pub element_id: String,
    pub element_type: ElementType,
    pub tag: Option<String>,
    pub role: Option<String>,
    pub reading_order: Option<u32>,
    pub global_order: Option<u32>,
    pub bbox: Option<BBox>,
    /// `content.text`
    pub text: Option<String>,
    /// `content.markdown`
    pub markdown: Option<String>,
    /// `content.html`
    pub html: Option<String>,
    /// `content.normalized_text`
    pub normalized_text: Option<String>,
    /// `content.raw`
    pub raw: Option<String>,
    /// `content.items` of a list element.
    pub items: Vec<String>,
    /// Marked to be left out of the semantic chunks.
    pub exclude_from_chunks: bool,
    /// For a table: the texts of its linearized row groups.
    pub table_linearized: Vec<String>,
    pub provenance: Provenance,
    pub confidence_permille: u32,
    pub warnings: Vec<Diagnostic>,
    /// Further string-valued attributes (`asset_id`, `format`, `list_type`, ...).
    pub extra: Vec<(String, String)>,
}

#[derive(Debug)]
pub struct PageProfile {
    pub content_mode: ContentMode,
    pub has_native_text: bool,
    pub has_ocr_required_regions: bool,
    pub has_tables: bool,
    pub has_images: bool,
    pub has_formulas: bool,
    pub has_handwriting: bool,
    pub language: Option<String>,
    pub confidence_permille: u32,
}

#[derive(Debug)]
pub struct Page {
    pub page_number: u32,
    pub page_type: PageType,
    pub width: Option<i64>,
    pub height: Option<i64>,
    pub page_image_asset_id: Option<String>,
    pub page_profile: PageProfile,
    pub elements: Vec<Element>,
    pub text: String,
    pub markdown: String,
    pub html: String,
    pub warnings: Vec<Diagnostic>,
}

#[derive(Clone, Copy, Debug, PartialEq, Eq, Structural)]
pub struct DocumentStats {
    pub page_count: u32,
    pub element_count: u32,
    pub text_element_count: u32,
    pub ocr_element_count: u32,
    pub image_count: u32,
    pub table_count: u32,
    pub formula_count: u32,
    pub list_count: u32,
    pub total_chars: u32,
    pub total_words: u32,
}

#[derive(Debug)]
pub struct SourceInfo {
    pub uri: String,
    pub filename: String,
    pub extension: String,
    pub mime_type: String,
    pub size_bytes: Option<u64>,
    pub sha256: Option<String>,
    pub processed_at: Option<String>,
}

#[derive(Debug)]
pub struct DocumentProfile {
    pub format: DocumentFormat,
    pub content_mode: ContentMode,
    pub languages: Vec<String>,
    pub has_native_text: bool,
    pub has_images: bool,
    pub has_tables: bool,
    pub has_formulas: bool,
    pub has_ocr_required_regions: bool,
    pub has_handwriting: bool,
    pub has_multicolumn_layout: bool,
    pub document_type_guess: Option<String>,
    pub confidence_permille: u32,
}

#[derive(Debug)]
pub struct CoordinateSystem {
    pub origin: String,
    pub unit: String,
    pub normalized_to_page: bool,
}

#[derive(Debug)]
pub struct Asset {
    pub asset_id: String,
    pub asset_type: String,
    pub path: String,
    pub mime_type: String,
    pub page_number: Option<u32>,
    pub width: Option<u32>,
    pub height: Option<u32>,
    pub sha256: Option<String>,
}

#[derive(Debug)]
pub struct ProcessingStage {
    pub name: String,
    pub status: StageStatus,
    pub tool: String,
    pub duration_ms: Option<u64>,
    pub metadata: Vec<(String, String)>,
}

#[derive(Debug)]
pub struct ProcessingTrace {
    pub pipeline_version: String,
    pub status: ProcessingStatus,
    pub stages: Vec<ProcessingStage>,
    pub total_duration_ms: Option<u64>,
}

/// Metadata flags of a semantic chunk.
#[derive(Debug)]
pub struct ChunkMetadata {
    pub language: String,
    pub contains_table: bool,
    pub contains_image: bool,
    pub contains_formula: bool,
    pub contains_code: bool,
    pub contains_ocr: bool,
}

/// A retrieval-sized piece of a document.
#[derive(Debug)]
pub struct Chunk {
    pub chunk_id: String,
    pub chunk_type: String,
    pub title: Option<String>,
    pub section_path: Vec<String>,
    pub page_start: u32,
    pub page_end: u32,
    pub element_ids: Vec<String>,
    pub token_estimate: u32,
    pub text: String,
    pub markdown: String,
    pub metadata: ChunkMetadata,
}

#[derive(Debug)]
pub struct DocumentModel {
    pub schema_version: String,
    pub document_id: String,
    pub job_id: Option<String>,
    pub source: SourceInfo,
    pub document_profile: DocumentProfile,
    pub stats: DocumentStats,
    pub coordinate_system: CoordinateSystem,
    pub assets: Vec<Asset>,
    pub pages: Vec<Page>,
    pub chunks: Vec<Chunk>,
    pub errors: Vec<Diagnostic>,
    pub warnings: Vec<Diagnostic>,
    pub processing: ProcessingTrace,
}

/// The text of an element (`content.text`, or empty).
pub open spec fn element_text_of(e: Element) -> Seq<char> {
    match e.text {
        Some(t) => t@,
        None => Seq::empty(),
    }
}

/// The markdown of an element (`content.markdown`, or empty).
pub open spec fn element_markdown_of(e: Element) -> Seq<char> {
    match e.markdown {
        Some(t) => t@,
        None => Seq::empty(),
    }
}

pub fn clone_string(s: &String) -> (r: String)
    ensures
        r@ == s@,
{
    s.clone()
}

pub fn clone_opt_string(s: &Option<String>) -> (r: Option<String>)
    ensures
        r.is_some() == s.is_some(),
        r.is_some() ==> r.unwrap()@ == s.unwrap()@,
{
    match s {
        Some(v) => Some(v.clone()),
        None => None,
    }
}

} // verus!
