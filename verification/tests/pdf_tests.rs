use document_parser::classifier::classify_bytes;
use document_parser::extractors::pdf::{
    build_pdf_document, build_pdf_page, effective_ocr_backend, ocr_duplicate_warnings, pdf_native_text,
    ocr_tool_name, pdf_page_content_mode, pdf_page_stage_list, pipe_table_rows, OcrBackendKind,
    PdfPageContentMode, PdfPageInfo, PdfPageRead, PdfReading, PdfRender, RenderedPage,
};
use document_parser::model::{
    BBox, ContentMode, Element, ElementType, ProcessingStatus, Provenance, StageStatus,
};

fn element(id: &str, text: &str) -> Element {
    Element {
        element_id: id.to_string(),
        element_type: ElementType::Text,
        tag: None,
        role: None,
        reading_order: None,
        global_order: None,
        bbox: None,
        text: Some(text.to_string()),
        markdown: Some(text.to_string()),
        html: None,
        normalized_text: None,
        raw: None,
        items: vec![],
        exclude_from_chunks: false,
        table_linearized: vec![],
        provenance: Provenance {
            method: "native".to_string(),
            tool: "pdf_native_extractor".to_string(),
            stage: "pdf_native_extraction".to_string(),
            source_kind: None,
            source_value: None,
        },
        confidence_permille: 990,
        warnings: vec![],
        extra: vec![],
    }
}

fn info(page_number: u32, requires_ocr: bool) -> PdfPageInfo {
    PdfPageInfo {
        page_number,
        content_mode: if requires_ocr { PdfPageContentMode::Scanned } else { PdfPageContentMode::Digital },
        has_native_text: !requires_ocr,
        requires_ocr,
        has_images: requires_ocr,
        confidence_permille: 850,
    }
}

fn rendered(page_number: u32) -> RenderedPage {
    RenderedPage {
        asset_id: format!("page_{}", page_number),
        path: format!("assets/pages/page_{}.png", page_number),
        mime_type: "image/png".to_string(),
        width: 1240,
        height: 1754,
        dpi: 150,
    }
}

fn stage_names(stages: &[document_parser::model::ProcessingStage]) -> Vec<&str> {
    stages.iter().map(|s| s.name.as_str()).collect()
}

#[test]
fn newlines_become_unix_line_ends() {
    assert_eq!(pdf_native_text("a\r\nb\rc\n\r\r\n"), "a\nb\nc\n\n\n");
    assert_eq!(pdf_native_text(""), "");
}

#[test]
fn pipe_tables_keep_rows_as_wide_as_the_header() {
    let rows = pipe_table_rows("Name | Age\nBob | 30\nnote\nAnn | 4 | x\n| Eve |  7 |").unwrap();
    assert_eq!(
        rows,
        vec![
            vec!["Name".to_string(), "Age".to_string()],
            vec!["Bob".to_string(), "30".to_string()],
            vec!["Eve".to_string(), "7".to_string()],
        ]
    );
    let crlf = pipe_table_rows("a | b\r\nc | d\r").unwrap();
    assert_eq!(crlf[1], vec!["c".to_string(), "d".to_string()]);
}

#[test]
fn text_without_a_pipe_table_has_none() {
    assert!(pipe_table_rows("no pipes\nat all").is_none());
    assert!(pipe_table_rows("a | b").is_none());
    assert!(pipe_table_rows("| a |\nb | c").is_none());
    assert!(pipe_table_rows("x | y\nz").is_none());
}

#[test]
fn page_stages_follow_rendering_and_recognition() {
    let onnx = pdf_page_stage_list(true, true, true, true, OcrBackendKind::Onnx);
    assert_eq!(
        stage_names(&onnx),
        vec![
            "pdf_render",
            "ocr_load_image",
            "ocr_detection",
            "ocr_crop",
            "ocr_recognition",
            "ocr_total",
            "native_ocr_merge"
        ]
    );
    let digital = pdf_page_stage_list(false, false, false, true, OcrBackendKind::Mock);
    assert_eq!(digital[0].status, StageStatus::Skipped);
    assert_eq!(digital[0].metadata, vec![("reason".to_string(), "digital_page_render_disabled".to_string())]);
    assert_eq!(digital[1].metadata[0].1, "ocr_not_required");
    assert_eq!(digital[1].tool, "mock_ocr");
    let missing = pdf_page_stage_list(true, false, true, true, OcrBackendKind::Triton);
    assert_eq!(missing[1].metadata[0].1, "render_missing_for_ocr");
    let disabled = pdf_page_stage_list(true, true, true, false, OcrBackendKind::Mock);
    assert_eq!(disabled[1].metadata[0].1, "ocr_disabled");
    let off = pdf_page_stage_list(true, true, true, true, OcrBackendKind::Disabled);
    assert_eq!(off[1].metadata[0].1, "ocr_disabled");
    assert_eq!(off[1].tool, "ocr_disabled");
}

#[test]
fn fallback_warning_switches_to_the_mock_backend() {
    let codes = vec!["OTHER".to_string(), "OCR_BACKEND_FALLBACK_TO_MOCK".to_string()];
    assert_eq!(effective_ocr_backend(OcrBackendKind::Onnx, &codes), OcrBackendKind::Mock);
    assert_eq!(effective_ocr_backend(OcrBackendKind::Triton, &vec![]), OcrBackendKind::Triton);
    assert_eq!(ocr_tool_name(OcrBackendKind::Onnx), "onnxruntime");
    assert_eq!(pdf_page_content_mode(PdfPageContentMode::Empty), ContentMode::Unknown);
}

#[test]
fn duplicate_warnings_name_the_dropped_elements() {
    let ws = ocr_duplicate_warnings(3, &vec!["ocr_1".to_string(), "ocr_7".to_string()]);
    assert_eq!(ws.len(), 2);
    assert_eq!(ws[1].element_id.as_deref(), Some("ocr_7"));
    assert_eq!(ws[0].page_number, Some(3));
    assert_eq!(ws[0].scope, "element");
}

#[test]
fn page_with_a_pipe_table_gets_a_table_stub() {
    let merged = vec![element("p1_e1", "Name | Age"), element("p1_e2", "Bob | 30")];
    let page = build_pdf_page(&info(1, false), &Some(rendered(1)), merged);
    assert_eq!(page.text, "Name | Age\nBob | 30");
    assert_eq!(page.markdown, "Name | Age\n\nBob | 30");
    assert_eq!(page.elements.len(), 3);
    let t = &page.elements[2];
    assert_eq!(t.element_id, "p1_table_1");
    assert_eq!(t.reading_order, Some(3));
    assert_eq!(t.bbox, Some(BBox { x0: 0, y0: 0, x1: 1000, y1: 200 }));
    assert_eq!(t.text.as_deref(), Some("Name | Age\nBob | 30"));
    assert_eq!(t.normalized_text.as_deref(), Some("name | age\nbob | 30"));
    assert_eq!(t.confidence_permille, 700);
    assert_eq!(page.width, Some(1240));
    assert_eq!(page.page_image_asset_id.as_deref(), Some("page_1"));
    assert_eq!(page.page_profile.content_mode, ContentMode::Digital);
    assert!(!page.page_profile.has_tables);

    let plain = build_pdf_page(&info(2, true), &None, vec![element("p2_e1", "plain text")]);
    assert_eq!(plain.elements.len(), 1);
    assert_eq!(plain.width, None);
    assert_eq!(plain.page_profile.content_mode, ContentMode::Scanned);
}

#[test]
fn pdf_model_collects_pages_stages_and_failures() {
    let cls = classify_bytes("/tmp/report.pdf", b"%PDF-1.7\n", 9);
    let reading = PdfReading {
        native_text_error: None,
        content_mode: ContentMode::Hybrid,
        backend_warnings: vec![("OCR_BACKEND_FALLBACK_TO_MOCK".to_string(), "fallback".to_string())],
        ocr_enabled: true,
        backend: OcrBackendKind::Onnx,
        pages: vec![
            PdfPageRead {
                info: info(1, true),
                render: PdfRender::Rendered(rendered(1)),
                merged: vec![element("p1_e1", "scanned words")],
                removed_ocr_ids: vec!["ocr_2".to_string()],
            },
            PdfPageRead {
                info: info(2, true),
                render: PdfRender::Failed("boom".to_string()),
                merged: vec![],
                removed_ocr_ids: vec![],
            },
        ],
    };
    let m = build_pdf_document(&cls, reading, None);
    assert_eq!(m.pages.len(), 2);
    assert_eq!(m.coordinate_system.unit, "synthetic");
    assert_eq!(m.document_profile.content_mode, ContentMode::Hybrid);
    assert!(!m.document_profile.has_native_text);
    assert!(m.document_profile.has_ocr_required_regions);
    assert_eq!(
        stage_names(&m.processing.stages),
        vec![
            "pdf_classification",
            "pdf_native_extraction",
            "pdf_render",
            "ocr_recognition",
            "native_ocr_merge",
            "pdf_render",
            "ocr_recognition",
            "native_ocr_merge"
        ]
    );
    assert_eq!(m.processing.stages[3].tool, "mock_ocr");
    assert_eq!(m.processing.stages[6].status, StageStatus::Skipped);
    assert_eq!(m.processing.total_duration_ms, Some(8));
    assert_eq!(m.processing.status, ProcessingStatus::Partial);
    assert_eq!(m.errors.len(), 1);
    assert_eq!(m.errors[0].message, "failed to render page 2: boom");
    assert_eq!(m.assets.len(), 1);
    assert_eq!(m.assets[0].asset_type, "page_render");
    assert_eq!(m.warnings.len(), 2);
    assert_eq!(m.warnings[0].scope, "stage");
    assert_eq!(m.warnings[1].code, "OCR_DUPLICATE_REMOVED");
    assert_eq!(m.stats.page_count, 2);
}

#[test]
fn failed_native_text_makes_the_model_partial() {
    let cls = classify_bytes("/tmp/report.pdf", b"%PDF-1.7\n", 9);
    let reading = PdfReading {
        native_text_error: Some("no text layer".to_string()),
        content_mode: ContentMode::Scanned,
        backend_warnings: vec![],
        ocr_enabled: false,
        backend: OcrBackendKind::Disabled,
        pages: vec![],
    };
    let m = build_pdf_document(&cls, reading, None);
    assert_eq!(m.processing.status, ProcessingStatus::Partial);
    assert_eq!(m.errors[0].code, "PDF_NATIVE_TEXT_EXTRACTION_FAILED");
    assert_eq!(m.errors[0].message, "failed to extract native PDF text: no text layer");
    assert_eq!(m.processing.stages.len(), 2);
}
