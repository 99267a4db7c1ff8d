use document_parser::classifier::{classify_bytes, FileClassification};
use document_parser::converters::traits::{
    ConversionError, ConversionStageRecord, ConversionTarget, ConvertedDocument, ExtractionContext,
};
use document_parser::extractors::docx::{
    attr_value, estimate_lines, flush_pending_list, paginate_candidates, paragraph_embedded_rids,
    paragraph_num_id, paragraph_style_id, read_docx_options, CandidateElement, PendingList,
};
use document_parser::extractors::html::{extract_html_document, parse_usize, HtmlExtractor};
use document_parser::extractors::image::page_image_element;
use document_parser::extractors::markdown::build_markdown_document;
use document_parser::extractors::pdf::{dedup_options, should_render_page, PdfPageContentMode};
use document_parser::extractors::pptx::{read_pptx_options, shape_bbox_or_synthetic};
use document_parser::extractors::rtf::{
    adopt_converted_model, append_context_stages, record_conversion_failure, rtf_base_model,
    rtf_text_model, to_diagnostic, tool_suffix_for_target, RtfExtractor,
};
use document_parser::extractors::txt::{build_txt_document, html_escape, DetectedTable, TxtExtractor};
use document_parser::extractors::xlsx::{
    column_to_a1, detect_formula, read_xlsx_options, table_row_segments, trim_empty_sheet_rows,
    used_range_to_a1,
};
use document_parser::extractors::{base_document_model, stage};
use document_parser::model::{
    BBox, ContentMode, DocumentFormat, Element, ElementType, PageType, ProcessingStatus,
    Provenance, StageStatus,
};

fn classification(path: &str, bytes: &[u8]) -> FileClassification {
    classify_bytes(path, bytes, bytes.len() as u64)
}

fn element(id: &str, text: &str) -> Element {
    Element {
        element_id: id.to_string(),
        element_type: ElementType::Paragraph,
        tag: None,
        role: None,
        reading_order: None,
        global_order: None,
        bbox: None,
        text: Some(text.to_string()),
        markdown: Some(text.to_string()),
        html: None,
        normalized_text: None,
        raw: None,
        items: vec![],
        exclude_from_chunks: false,
        table_linearized: vec![],
        provenance: Provenance {
            method: "native".to_string(),
            tool: "docx_ooxml_parser".to_string(),
            stage: "docx_paragraphs".to_string(),
            source_kind: None,
            source_value: None,
        },
        confidence_permille: 990,
        warnings: vec![],
        extra: vec![],
    }
}

#[test]
fn txt_lines_become_typed_elements() {
    let text = "ЗАГОЛОВОК\r\n\r\n- пункт один\r\nобычный абзац текста\nlet x = 1;\n";
    let c = classification("notes/sample.txt", text.as_bytes());
    let m = build_txt_document(&c, text, None, None, None);
    assert_eq!(m.document_profile.format, DocumentFormat::Txt);
    assert_eq!(m.document_profile.content_mode, ContentMode::PlainText);
    assert_eq!(m.document_id, "sample_txt");
    assert_eq!(m.pages.len(), 1);
    let page = &m.pages[0];
    assert_eq!(page.page_type, PageType::SyntheticTextPage);
    let normalized = "ЗАГОЛОВОК\n\n- пункт один\nобычный абзац текста\nlet x = 1;\n";
    assert_eq!(page.text, normalized);
    assert_eq!(page.markdown, "ЗАГОЛОВОК\n- пункт один\nобычный абзац текста\nlet x = 1;");
    let kinds: Vec<ElementType> = page.elements.iter().map(|e| e.element_type).collect();
    assert_eq!(
        kinds,
        vec![ElementType::Heading, ElementType::ListItem, ElementType::Paragraph, ElementType::Code]
    );
    let markdowns: Vec<&str> = page.elements.iter().map(|e| e.markdown.as_deref().unwrap()).collect();
    assert_eq!(
        markdowns,
        vec!["# ЗАГОЛОВОК", "- пункт один", "обычный абзац текста", "```\nlet x = 1;\n```"]
    );
    assert_eq!(page.elements[3].element_id, "p1_e4");
    assert_eq!(page.elements[0].normalized_text.as_deref(), Some("заголовок"));
    assert_eq!(page.elements[2].bbox, Some(BBox { x0: 0, y0: 2, x1: 120, y1: 3 }));
    assert_eq!(m.stats.element_count, 4);
    assert_eq!(m.stats.text_element_count, 4);
    assert_eq!(m.stats.list_count, 1);
    assert_eq!(m.stats.total_chars as usize, normalized.chars().count());
    assert_eq!(m.stats.total_words as usize, normalized.split_whitespace().count());
    assert_eq!(m.processing.total_duration_ms, Some(2));
}

#[test]
fn txt_page_html_is_escaped_preformatted_text() {
    let c = classification("a.txt", b"x");
    let m = build_txt_document(&c, "a < b & c > \"d\"", None, None, None);
    assert_eq!(m.pages[0].html, "<pre>a &lt; b &amp; c &gt; \"d\"</pre>");
    assert_eq!(html_escape("'<&>'"), "'&lt;&amp;&gt;'");
}

#[test]
fn empty_text_gives_one_page_without_elements() {
    let c = classification("empty.txt", b"");
    let m = build_txt_document(&c, "", None, None, None);
    assert_eq!(m.pages.len(), 1);
    assert!(m.pages[0].elements.is_empty());
    assert_eq!(m.stats.element_count, 0);
    assert_eq!(m.stats.total_words, 0);
}

#[test]
fn markdown_blocks_and_formulas_become_elements() {
    let md = "# Заголовок\n\nТекст абзаца.\n- пункт\n> цитата\n```\ncode\n```\n$$\nE = mc^2\n$$\n";
    let c = classification("doc.md", md.as_bytes());
    let m = build_markdown_document(&c, md, None, None).expect("fits");
    let page = &m.pages[0];
    let kinds: Vec<ElementType> = page.elements.iter().map(|e| e.element_type).collect();
    assert_eq!(
        kinds,
        vec![
            ElementType::Heading,
            ElementType::Paragraph,
            ElementType::ListItem,
            ElementType::Blockquote,
            ElementType::Code,
            ElementType::Paragraph,
            ElementType::Paragraph,
            ElementType::Paragraph,
            ElementType::Formula,
        ]
    );
    assert_eq!(page.elements[0].text.as_deref(), Some("Заголовок"));
    assert_eq!(page.elements[4].text.as_deref(), Some("code"));
    assert_eq!(page.elements[4].markdown.as_deref(), Some("```\ncode\n```"));
    let formula = &page.elements[8];
    assert_eq!(formula.text.as_deref(), Some("E = mc^2"));
    assert_eq!(formula.markdown.as_deref(), Some("$$\nE = mc^2\n$$"));
    assert_eq!(formula.role.as_deref(), Some("math_formula"));
    assert_eq!(page.markdown, md);
    assert!(page.html.contains("<h1>Заголовок</h1>"));
    assert!(m.document_profile.has_formulas);
    assert!(!m.document_profile.has_images);
    assert_eq!(m.stats.formula_count, 1);
}

#[test]
fn html_document_elements_follow_selector_order() {
    let html = "<html><body><h1>Title</h1><p>First para</p><p>   </p><ul><li>One</li></ul>\
                <table><tr><th>A</th><th colspan=\"2\">B</th></tr><tr><td>1</td><td>2</td></tr></table>\
                <math><mi>x</mi></math><img src=\"a.png\"></body></html>";
    let c = classification("page.html", html.as_bytes());
    let m = extract_html_document(&c, html, None).expect("selectors parse");
    let page = &m.pages[0];
    let ids: Vec<&str> = page.elements.iter().map(|e| e.element_id.as_str()).collect();
    assert_eq!(ids, vec!["p1_e1", "p1_e2", "p1_e3", "p1_e4", "p1_table_5", "p1_formula_6"]);
    let kinds: Vec<ElementType> = page.elements.iter().map(|e| e.element_type).collect();
    assert_eq!(
        kinds,
        vec![
            ElementType::Heading,
            ElementType::Paragraph,
            ElementType::List,
            ElementType::ListItem,
            ElementType::Table,
            ElementType::Formula,
        ]
    );
    assert_eq!(page.elements[0].markdown.as_deref(), Some("# Title"));
    assert_eq!(page.elements[0].normalized_text.as_deref(), Some("title"));
    assert_eq!(page.elements[3].markdown.as_deref(), Some("- One"));
    assert_eq!(page.elements[1].bbox, Some(BBox { x0: 40, y0: 48, x1: 1160, y1: 72 }));
    let table = &page.elements[4];
    assert_eq!(table.text.as_deref(), Some("A | B | 1 | 2"));
    assert_eq!(table.warnings.len(), 1);
    assert_eq!(table.warnings[0].code, "COMPLEX_TABLE_MARKDOWN_APPROXIMATION");
    assert_eq!(table.warnings[0].element_id.as_deref(), Some("p1_table_5"));
    assert_eq!(table.extra[0], ("rows".to_string(), "2".to_string()));
    assert_eq!(table.extra[1], ("columns".to_string(), "2".to_string()));
    let formula = &page.elements[5];
    assert_eq!(formula.text.as_deref(), Some("x"));
    assert_eq!(formula.markdown.as_deref(), Some("$$ x $$"));
    assert_eq!(page.text, "Title\nFirst para\nOne\nOne\nA | B | 1 | 2\nx");
    assert_eq!(page.markdown, "# Title\n\nFirst para\n\nOne\n\n- One\n\n$$ x $$");
    assert_eq!(page.html, html);
    assert!(m.document_profile.has_images);
    assert!(m.document_profile.has_tables);
    assert!(m.document_profile.has_formulas);
    assert_eq!(m.stats.element_count, 6);
    assert_eq!(m.processing.stages.len(), 1);
    assert_eq!(m.processing.stages[0].name, "html_parse");
    assert_eq!(m.processing.total_duration_ms, Some(1));
}

#[test]
fn parse_usize_reads_as_std_does() {
    for s in ["0", "12", "+7", "007", "", "+", "-1", "1x", " 3", "18446744073709551616"] {
        assert_eq!(parse_usize(s), s.parse::<usize>().ok(), "input {:?}", s);
    }
}

#[test]
fn extractor_names() {
    assert_eq!(HtmlExtractor.name(), "html_extractor");
    assert_eq!(TxtExtractor.name(), "txt_extractor");
    assert_eq!(RtfExtractor.name(), "rtf_extractor");
}

#[test]
fn rtf_failure_without_converters_reports_no_fallback() {
    let c = classification("letter.rtf", b"{\\rtf1 hello}");
    let mut m = rtf_base_model(&c, None);
    assert_eq!(m.coordinate_system.unit, "synthetic");
    assert_eq!(m.processing.stages[0].name, "rtf_conversion_pipeline");
    let mut ctx = ExtractionContext::default();
    ctx.push_stage(ConversionStageRecord::warning("pandoc", "pandoc").with_meta("reason", "missing".to_string()));
    ctx.push_warning(ConversionError::new("PANDOC_MISSING", "pandoc not found".to_string()));
    let err = ConversionError::new("CONVERTER_NOT_CONFIGURED", "no converter".to_string())
        .with_recoverable(false)
        .with_meta("tried", "pandoc".to_string());
    record_conversion_failure(&mut m, &err, &ctx);
    assert_eq!(m.processing.status, ProcessingStatus::Failed);
    assert_eq!(m.errors.len(), 1);
    assert_eq!(m.errors[0].code, "RTF_NO_FALLBACK_AVAILABLE");
    assert_eq!(m.errors[0].severity, "error");
    assert_eq!(m.errors[0].message, "no converter");
    assert!(!m.errors[0].recoverable);
    assert_eq!(m.errors[0].extra, vec![("tried".to_string(), "pandoc".to_string())]);
    let names: Vec<&str> = m.processing.stages.iter().map(|s| s.name.as_str()).collect();
    assert_eq!(names, vec!["rtf_conversion_pipeline", "rtf_pandoc", "rtf_route_converted_document"]);
    assert_eq!(m.processing.stages[1].status, StageStatus::Warning);
    assert_eq!(m.processing.stages[1].duration_ms, Some(0));
    assert_eq!(m.processing.total_duration_ms, Some(3));
    assert_eq!(m.warnings.len(), 1);
    assert_eq!(m.warnings[0].code, "PANDOC_MISSING");
    assert_eq!(m.warnings[0].severity, "warning");
}

#[test]
fn rtf_failure_of_a_converter_is_a_conversion_failure() {
    let c = classification("letter.rtf", b"{\\rtf1}");
    let mut m = rtf_base_model(&c, None);
    let err = ConversionError::new("PANDOC_FAILED", "exit 1".to_string());
    record_conversion_failure(&mut m, &err, &ExtractionContext::default());
    assert_eq!(m.errors[0].code, "RTF_CONVERSION_FAILED");
}

#[test]
fn rtf_converted_model_takes_source_format_and_provenance() {
    let c = classification("letter.rtf", b"{\\rtf1 hello}");
    let fallback = rtf_base_model(&c, Some("2024-01-01T00:00:00Z".to_string()));
    let converted_class = classification("/tmp/work/letter.txt", b"hello");
    let mut routed = rtf_text_model(&converted_class, None, "hello world".to_string());
    routed.pages[0].elements.push(element("p1_e1", "hello world"));
    let mut ctx = ExtractionContext::default();
    ctx.push_stage(ConversionStageRecord::ok("convert", "pandoc"));
    let converted = ConvertedDocument {
        path: "/tmp/work/letter.txt".to_string(),
        target: ConversionTarget::Text,
        mime_type: "text/plain".to_string(),
        converter_name: "pandoc".to_string(),
        duration_ms: 12,
    };
    adopt_converted_model(&mut routed, &fallback, &converted, &ctx);
    assert_eq!(routed.source.uri, "letter.rtf");
    assert_eq!(routed.source.processed_at.as_deref(), Some("2024-01-01T00:00:00Z"));
    assert_eq!(routed.document_profile.format, DocumentFormat::Rtf);
    let names: Vec<&str> = routed.processing.stages.iter().map(|s| s.name.as_str()).collect();
    assert_eq!(
        names,
        vec!["rtf_conversion_pipeline", "rtf_convert_to_text", "rtf_route_converted_document", "rtf_convert"]
    );
    assert_eq!(routed.processing.stages[1].tool, "pandoc");
    assert_eq!(routed.processing.stages[1].duration_ms, Some(12));
    assert_eq!(routed.processing.stages[3].status, StageStatus::Succeeded);
    assert_eq!(routed.processing.total_duration_ms, Some(4));
    let p = &routed.pages[0].elements[0].provenance;
    assert_eq!(p.method, "converted");
    assert_eq!(p.tool, "pandoc+text_parser");
    assert_eq!(p.stage, "rtf_to_text_extraction");
    assert_eq!(p.source_kind.as_deref(), Some("converted_file"));
    assert_eq!(p.source_value.as_deref(), Some("/tmp/work/letter.txt"));
    assert_eq!(routed.stats.element_count, 1);
    assert_eq!(routed.stats.total_words, 2);
}

#[test]
fn rtf_tool_suffixes_and_diagnostics() {
    assert_eq!(tool_suffix_for_target(ConversionTarget::Docx), "docx_ooxml_parser");
    assert_eq!(tool_suffix_for_target(ConversionTarget::Pdf), "pdf_native_extractor");
    assert_eq!(tool_suffix_for_target(ConversionTarget::Html), "html_dom_parser");
    assert_eq!(tool_suffix_for_target(ConversionTarget::Markdown), "markdown_parser");
    let err = ConversionError::new("X", "m".to_string()).with_meta("k", "v".to_string());
    let d = to_diagnostic("CODE", &err, "page", "warning");
    assert_eq!(d.code, "CODE");
    assert_eq!(d.scope, "page");
    assert_eq!(d.severity, "warning");
    assert_eq!(d.extra, vec![("k".to_string(), "v".to_string())]);
}

#[test]
fn append_context_stages_maps_unknown_status_to_warning() {
    let c = classification("x.rtf", b"x");
    let mut m = base_document_model(&c, DocumentFormat::Rtf, ContentMode::Digital, PageType::DocumentPage, None);
    m.processing.stages.push(stage("first", "tool", 5));
    let mut ctx = ExtractionContext::default();
    let mut odd = ConversionStageRecord::ok("odd", "t");
    odd.status = "skipped".to_string();
    ctx.push_stage(odd);
    ctx.push_stage(ConversionStageRecord::error("bad", "t"));
    append_context_stages(&mut m, &ctx, "pre");
    assert_eq!(m.processing.stages.len(), 3);
    assert_eq!(m.processing.stages[1].name, "pre_odd");
    assert_eq!(m.processing.stages[1].status, StageStatus::Warning);
    assert_eq!(m.processing.stages[2].status, StageStatus::Error);
}

#[test]
fn docx_attribute_readers() {
    let xml = "<w:p><w:pPr><w:pStyle w:val=\"Heading1\"/><w:numPr><w:numId w:val='3'/></w:numPr></w:pPr></w:p>";
    assert_eq!(paragraph_style_id(xml).as_deref(), Some("Heading1"));
    assert_eq!(paragraph_num_id(xml).as_deref(), Some("3"));
    assert_eq!(attr_value("a x=\"1\"", "x=").as_deref(), Some("1"));
    assert_eq!(attr_value("a x=1", "x="), None);
    assert_eq!(paragraph_style_id("<w:p/>"), None);
}

#[test]
fn docx_embedded_image_ids_come_from_the_regex() {
    let xml = "<a:blip r:embed=\"rId5\"/><a:blip r:embed=\"rId7\"/>";
    assert_eq!(paragraph_embedded_rids(xml), vec!["rId5".to_string(), "rId7".to_string()]);
    assert!(paragraph_embedded_rids("<w:t>none</w:t>").is_empty());
}

#[test]
fn docx_line_estimate_takes_the_larger_of_hard_and_soft_lines() {
    assert_eq!(estimate_lines(""), 1);
    assert_eq!(estimate_lines("a\nb\nc"), 3);
    assert_eq!(estimate_lines(&"x".repeat(200)), 3);
}

#[test]
fn docx_pending_list_flushes_into_a_list_element() {
    let mut pending = Some(PendingList { list_type: "ol".to_string(), items: vec!["a".to_string(), "b".to_string()] });
    let mut out: Vec<CandidateElement> = vec![];
    let mut count = 0usize;
    flush_pending_list(&mut pending, &mut out, &mut count);
    assert!(pending.is_none());
    assert_eq!(count, 1);
    assert_eq!(out.len(), 1);
    let e = &out[0].element;
    assert_eq!(e.element_id, "docx_list_1");
    assert_eq!(e.role.as_deref(), Some("ordered_list"));
    assert_eq!(e.text.as_deref(), Some("a\nb"));
    assert_eq!(e.markdown.as_deref(), Some("1. a\n2. b"));
    assert_eq!(out[0].estimated_lines, 2);
    let mut empty = Some(PendingList { list_type: "ul".to_string(), items: vec![] });
    flush_pending_list(&mut empty, &mut out, &mut count);
    assert_eq!(out.len(), 1);
    assert_eq!(count, 1);
}

#[test]
fn docx_pagination_starts_a_page_when_the_limit_is_passed() {
    let cands = vec![
        CandidateElement { element: element("x", "one"), estimated_lines: 2 },
        CandidateElement { element: element("y", "two"), estimated_lines: 2 },
        CandidateElement { element: element("z", "three"), estimated_lines: 1 },
    ];
    let pages = paginate_candidates(cands, 3, 0);
    assert_eq!(pages.len(), 2);
    assert_eq!(pages[0].elements.len(), 1);
    assert_eq!(pages[1].elements.len(), 2);
    assert_eq!(pages[0].elements[0].element_id, "p1_e1");
    assert_eq!(pages[1].elements[0].element_id, "p2_e1");
    assert_eq!(pages[1].elements[1].element_id, "p2_e2");
    assert_eq!(pages[1].elements[1].global_order, Some(3));
    assert_eq!(pages[1].elements[1].bbox, Some(BBox { x0: 0, y0: 32, x1: 1000, y1: 48 }));
    assert_eq!(pages[1].text, "two\nthree");
    assert_eq!(pages[1].markdown, "two\n\nthree");
    let none = paginate_candidates(vec![], 80, 0);
    assert_eq!(none.len(), 1);
    assert!(none[0].elements.is_empty());
}

#[test]
fn docx_options_default_without_config() {
    let o = read_docx_options(None);
    assert!(o.enabled && o.extract_tables && o.extract_embedded_images);
    assert_eq!(o.synthetic_page_line_limit, 80);
}

#[test]
fn xlsx_columns_ranges_and_formulas() {
    assert_eq!(column_to_a1(0), "A");
    assert_eq!(column_to_a1(25), "Z");
    assert_eq!(column_to_a1(26), "AA");
    assert_eq!(column_to_a1(701), "ZZ");
    assert_eq!(column_to_a1(702), "AAA");
    let rows = vec![
        vec!["a".to_string(), "b".to_string(), "c".to_string()],
        vec!["d".to_string()],
    ];
    assert_eq!(used_range_to_a1(&rows), "A1:C2");
    assert_eq!(used_range_to_a1(&vec![]), "A1:A1");
    assert_eq!(detect_formula("  =SUM(A1:A3) ", true).as_deref(), Some("=SUM(A1:A3)"));
    assert_eq!(detect_formula("=", true), None);
    assert_eq!(detect_formula("=A1", false), None);
    assert_eq!(detect_formula("text", true), None);
    let trimmed = trim_empty_sheet_rows(vec![
        vec!["x".to_string()],
        vec![" ".to_string(), "".to_string()],
        vec![],
    ]);
    assert_eq!(trimmed, vec![vec!["x".to_string()]]);
    let o = read_xlsx_options(None);
    assert_eq!(o.max_rows_per_table_element, 200);
    assert_eq!(o.max_rows_per_linearized_chunk, 20);
}

#[test]
fn pptx_and_pdf_options_and_boxes() {
    let o = read_pptx_options(None);
    assert!(o.enabled && o.extract_notes && o.synthetic_coordinates);
    assert_eq!(
        shape_bbox_or_synthetic(Some(10), Some(20), Some(100), Some(50), 7),
        Some(BBox { x0: 10, y0: 20, x1: 110, y1: 70 })
    );
    assert_eq!(
        shape_bbox_or_synthetic(Some(10), Some(20), Some(0), Some(50), 7),
        Some(BBox { x0: 0, y0: 7, x1: 1000, y1: 35 })
    );
    assert_eq!(
        shape_bbox_or_synthetic(None, Some(20), Some(100), Some(50), 16),
        Some(BBox { x0: 0, y0: 16, x1: 1000, y1: 44 })
    );
    assert!(!should_render_page(PdfPageContentMode::Digital, None));
    assert!(should_render_page(PdfPageContentMode::Hybrid, None));
    assert!(should_render_page(PdfPageContentMode::Scanned, None));
    assert!(!should_render_page(PdfPageContentMode::Empty, None));
    assert!(!should_render_page(PdfPageContentMode::Unknown, None));
    let d = dedup_options(None);
    assert_eq!(d.bbox_iou_threshold_milli, 500);
    assert_eq!(d.text_similarity_threshold_milli, 800);
    assert!(d.prefer_native_text);
}

#[test]
fn image_page_element_covers_the_image() {
    let e = page_image_element(640, 480, "img1", "assets/images/img1_photo.png");
    assert_eq!(e.element_id, "p1_e1");
    assert_eq!(e.element_type, ElementType::Image);
    assert_eq!(e.bbox, Some(BBox { x0: 0, y0: 0, x1: 640, y1: 480 }));
    assert_eq!(e.markdown.as_deref(), Some("![image](assets/images/img1_photo.png)"));
    assert_eq!(e.extra, vec![("asset_id".to_string(), "img1".to_string())]);
}

#[test]
fn docx_image_element_names_its_asset() {
    let e = document_parser::extractors::docx::make_image_element(3, "img_9");
    assert_eq!(e.element_id, "docx_image_3");
    assert_eq!(e.element_type, ElementType::Image);
    assert_eq!(e.markdown.as_deref(), Some("![DOCX image]"));
    assert_eq!(e.provenance.stage, "docx_media_extraction");
    assert_eq!(e.extra, vec![("asset_id".to_string(), "img_9".to_string())]);
}

#[test]
fn chart_placeholder_keeps_its_box() {
    let b = BBox { x0: 1, y0: 2, x1: 3, y1: 4 };
    let e = document_parser::charts::create_chart_placeholder(7, b);
    assert_eq!(e.element_id, "p7_chart_placeholder");
    assert_eq!(e.element_type, ElementType::Chart);
    assert_eq!(e.bbox, Some(b));
    assert_eq!(e.text.as_deref(), Some("[Обнаружена диаграмма, извлечение метаданных пока ограничено]"));
    assert_eq!(e.provenance.method, "inferred");
}

#[test]
fn xlsx_table_ranges_split_into_bounded_segments() {
    assert_eq!(table_row_segments(0, 9, 4), vec![(0, 3), (4, 7), (8, 9)]);
    assert_eq!(table_row_segments(5, 5, 10), vec![(5, 5)]);
    assert_eq!(table_row_segments(3, 2, 1), vec![]);
    assert_eq!(table_row_segments(0, 2, 1), vec![(0, 0), (1, 1), (2, 2)]);
}

#[test]
fn txt_tables_come_before_the_lines() {
    let c = classification("t.txt", b"x");
    let table = DetectedTable {
        cell_texts: vec!["Имя".to_string(), "Кол".to_string(), "a".to_string(), "1".to_string()],
        rows: 2,
        columns: 2,
        markdown: "| Имя | Кол |\n| --- | --- |\n| a | 1 |".to_string(),
        csv: "Имя,Кол\na,1".to_string(),
        html: "<table></table>".to_string(),
    };
    let m = build_txt_document(&c, "| Имя | Кол |\n| a | 1 |\n", None, None, Some(table));
    let page = &m.pages[0];
    assert_eq!(page.elements[0].element_type, ElementType::Table);
    assert_eq!(page.elements[0].element_id, "p1_e1");
    assert_eq!(page.elements[0].text.as_deref(), Some("Имя | Кол | a | 1"));
    assert_eq!(page.elements[0].normalized_text.as_deref(), Some("имя | кол | a | 1"));
    assert_eq!(page.elements[0].extra[3], ("extraction_method".to_string(), "txt_tsv".to_string()));
    assert_eq!(page.elements[1].element_id, "p1_e2");
    assert_eq!(page.elements[1].reading_order, Some(2));
    assert!(m.document_profile.has_tables);
    assert_eq!(m.stats.table_count, 1);
}

#[test]
fn markdown_table_follows_the_blocks() {
    let c = classification("t.md", b"x");
    let md = "# Title\n\n| a | b |\n|---|---|\n| 1 | 2 |\n";
    let table = DetectedTable {
        cell_texts: vec!["a".to_string(), "b".to_string(), "1".to_string(), "2".to_string()],
        rows: 2,
        columns: 2,
        markdown: "| a | b |\n| --- | --- |\n| 1 | 2 |".to_string(),
        csv: "a,b\n1,2".to_string(),
        html: "<table></table>".to_string(),
    };
    let plain = build_markdown_document(&c, md, None, None).expect("fits");
    let n = plain.pages[0].elements.len();
    let m = build_markdown_document(&c, md, None, Some(table)).expect("fits");
    let es = &m.pages[0].elements;
    assert_eq!(es.len(), n + 1);
    assert_eq!(es[n].element_type, ElementType::Table);
    assert_eq!(es[n].role.as_deref(), Some("data_table"));
    assert_eq!(es[n].html.as_deref(), Some("<table></table>"));
    assert_eq!(es[n].element_id, format!("p1_e{}", n + 1));
    assert!(m.pages[0].text.ends_with("a | b | 1 | 2"));
    assert!(m.document_profile.has_tables);
    assert!(!plain.document_profile.has_tables);
}
