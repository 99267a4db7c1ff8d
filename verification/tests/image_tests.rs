use document_parser::classifier::classify_bytes;
use document_parser::extractors::image::{build_image_document, image_ocr_enabled, ImageOcr};
use document_parser::extractors::pdf::OcrBackendKind;
use document_parser::model::{
    Asset, BBox, ContentMode, Element, ElementType, PageType, ProcessingStatus, Provenance,
};

fn asset() -> Asset {
    Asset {
        asset_id: "img_1".to_string(),
        asset_type: "embedded_image".to_string(),
        path: "assets/images/img_1_scan.png".to_string(),
        mime_type: "image/png".to_string(),
        page_number: None,
        width: None,
        height: None,
        sha256: None,
    }
}

fn ocr_line(id: &str, text: &str) -> Element {
    Element {
        element_id: id.to_string(),
        element_type: ElementType::TextOcr,
        tag: None,
        role: None,
        reading_order: Some(2),
        global_order: Some(2),
        bbox: Some(BBox { x0: 10, y0: 10, x1: 200, y1: 30 }),
        text: Some(text.to_string()),
        markdown: Some(text.to_string()),
        html: None,
        normalized_text: None,
        raw: None,
        items: vec![],
        exclude_from_chunks: false,
        table_linearized: vec![],
        provenance: Provenance {
            method: "ocr".to_string(),
            tool: "mock_ocr".to_string(),
            stage: "ocr_recognition".to_string(),
            source_kind: None,
            source_value: None,
        },
        confidence_permille: 800,
        warnings: vec![],
        extra: vec![],
    }
}

#[test]
fn recognition_runs_only_when_enabled_with_a_backend() {
    assert!(image_ocr_enabled(true, OcrBackendKind::Mock));
    assert!(!image_ocr_enabled(false, OcrBackendKind::Onnx));
    assert!(!image_ocr_enabled(true, OcrBackendKind::Disabled));
}

#[test]
fn image_without_recognition_warns_and_shows_the_picture() {
    let cls = classify_bytes("/tmp/scan.png", b"\x89PNG\r\n\x1a\n", 8);
    let m = build_image_document(&cls, 640, 480, asset(), ImageOcr::Disabled, None);
    assert_eq!(m.coordinate_system.unit, "px");
    assert_eq!(m.assets.len(), 1);
    assert_eq!(m.assets[0].width, Some(640));
    assert_eq!(m.assets[0].height, Some(480));
    let page = &m.pages[0];
    assert_eq!(page.page_type, PageType::Image);
    assert_eq!(page.page_profile.content_mode, ContentMode::Image);
    assert_eq!(page.width, Some(640));
    assert_eq!(page.page_image_asset_id.as_deref(), Some("img_1"));
    assert_eq!(page.elements.len(), 1);
    assert_eq!(page.elements[0].markdown.as_deref(), Some("![image](assets/images/img_1_scan.png)"));
    assert_eq!(page.elements[0].bbox, Some(BBox { x0: 0, y0: 0, x1: 640, y1: 480 }));
    assert_eq!(page.text, "");
    assert_eq!(page.markdown, "![image](assets/images/img_1_scan.png)");
    assert_eq!(m.warnings.len(), 1);
    assert_eq!(m.warnings[0].code, "OCR_DISABLED");
    assert_eq!(m.processing.stages.len(), 1);
    assert_eq!(m.processing.total_duration_ms, Some(2));
    assert_eq!(m.processing.status, ProcessingStatus::Complete);
    assert!(!m.document_profile.has_native_text);
    assert!(m.document_profile.has_ocr_required_regions);
}

#[test]
fn recognized_lines_follow_the_picture() {
    let cls = classify_bytes("/tmp/scan.png", b"\x89PNG\r\n\x1a\n", 8);
    let ocr = ImageOcr::Ran {
        backend_warnings: vec![],
        backend: OcrBackendKind::Onnx,
        elements: vec![ocr_line("p1_ocr_1", "Привет"), ocr_line("p1_ocr_2", "мир")],
    };
    let m = build_image_document(&cls, 100, 50, asset(), ocr, None);
    let page = &m.pages[0];
    assert_eq!(page.elements.len(), 3);
    assert_eq!(page.elements[1].element_id, "p1_ocr_1");
    assert_eq!(page.text, "Привет\nмир");
    assert_eq!(page.markdown, "![image](assets/images/img_1_scan.png)\n\nПривет\n\nмир");
    let names: Vec<&str> = m.processing.stages.iter().map(|s| s.name.as_str()).collect();
    assert_eq!(
        names,
        vec!["image_decode", "ocr_load_image", "ocr_detection", "ocr_crop", "ocr_recognition", "ocr_total"]
    );
    assert!(m.warnings.is_empty());
    assert_eq!(m.stats.ocr_element_count, 2);

    let fallback = ImageOcr::Ran {
        backend_warnings: vec![("OCR_BACKEND_FALLBACK_TO_MOCK".to_string(), "no model".to_string())],
        backend: OcrBackendKind::Onnx,
        elements: vec![],
    };
    let m = build_image_document(&cls, 100, 50, asset(), fallback, None);
    let names: Vec<&str> = m.processing.stages.iter().map(|s| s.name.as_str()).collect();
    assert_eq!(names, vec!["image_decode", "ocr_recognition"]);
    assert_eq!(m.processing.stages[1].tool, "mock_ocr");
    assert_eq!(m.warnings[0].scope, "stage");
    assert_eq!(m.warnings[0].page_number, Some(1));
}
