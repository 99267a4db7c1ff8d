use document_parser::extractors::docx::{
    docx_candidates, make_paragraph_element, DocxBlock, DocxImage,
    DocxOptions, DocxParagraph, ParagraphStyle,
};
use document_parser::classifier::classify_bytes;
use document_parser::extractors::docx_table::make_table_element;
use document_parser::extractors::docx_document::{
    build_docx_document, note_candidates, DocxPackage, DocxRead, DocxRelationships,
};
use document_parser::model::{Asset, ElementType, ProcessingStatus};

const TABLE_XML: &str = "<w:tbl><w:tr><w:tc><w:p><w:r><w:t>Name</w:t></w:r></w:p></w:tc><w:tc><w:t xml:space=\"preserve\">Qty</w:t></w:tc></w:tr><w:tr><w:tc><w:t>apple</w:t></w:tc><w:tc><w:t>3</w:t></w:tc></w:tr></w:tbl>";

fn plain() -> ParagraphStyle {
    ParagraphStyle { heading: false, monospace: false, level: 1 }
}

fn para(text: &str, list: Option<bool>) -> DocxParagraph {
    DocxParagraph {
        text: text.to_string(),
        normalized_text: text.to_string(),
        list,
        style: plain(),
        formula: None,
        images: vec![],
    }
}

#[test]
fn docx_paragraph_kinds() {
    let p = make_paragraph_element("plain words here", "plain words here", plain(), false, 4).unwrap();
    assert_eq!(p.element.element_id, "docx_paragraph_4");
    assert_eq!(p.element.element_type, ElementType::Paragraph);
    assert_eq!(p.element.markdown.as_deref(), Some("plain words here"));

    let h = make_paragraph_element("Intro", "Intro", ParagraphStyle { heading: false, monospace: false, level: 2 }, true, 1)
        .unwrap();
    assert_eq!(h.element.element_type, ElementType::Heading);
    assert_eq!(h.element.tag.as_deref(), Some("h2"));
    assert_eq!(h.element.markdown.as_deref(), Some("## Intro"));

    let lower = make_paragraph_element("intro", "intro", plain(), true, 1).unwrap();
    assert_eq!(lower.element.element_type, ElementType::Paragraph);

    let code = make_paragraph_element("let x = 1;", "let x = 1;", ParagraphStyle { heading: true, monospace: true, level: 1 }, true, 2)
        .unwrap();
    assert_eq!(code.element.element_type, ElementType::Code);
    assert_eq!(code.element.markdown.as_deref(), Some("```\nlet x = 1;\n```"));

    assert!(make_paragraph_element("   ", "", plain(), true, 1).is_none());
}

#[test]
fn docx_body_groups_lists_and_numbers_each_kind() {
    let table = TABLE_XML.to_string();
    let mut with_formula = para("see below", None);
    with_formula.formula = Some(("<m:oMath/>".to_string(), "x+y".to_string()));
    let mut with_images = para("pictures", None);
    with_images.images = vec![
        DocxImage::Stored("asset_a".to_string()),
        DocxImage::Skipped,
        DocxImage::Failed("rId7".to_string(), "missing part".to_string()),
    ];
    let blocks = vec![
        DocxBlock::Paragraph(para("first", Some(true))),
        DocxBlock::Paragraph(para("second", Some(true))),
        DocxBlock::Paragraph(para("bullet", Some(false))),
        DocxBlock::Table(table),
        DocxBlock::Table("<w:tbl></w:tbl>".to_string()),
        DocxBlock::Paragraph(with_formula),
        DocxBlock::Paragraph(with_images),
        DocxBlock::Paragraph(para("tail", Some(false))),
    ];
    let mut options = DocxOptions::default();
    options.extract_headings = false;
    let r = docx_candidates(blocks, &options);
    let ids: Vec<&str> = r.candidates.iter().map(|c| c.element.element_id.as_str()).collect();
    assert_eq!(
        ids,
        vec![
            "docx_list_1",
            "docx_list_2",
            "docx_table_1",
            "docx_paragraph_1",
            "",
            "docx_paragraph_2",
            "docx_image_1",
            "docx_list_3",
        ]
    );
    assert_eq!(r.candidates[0].element.text.as_deref(), Some("first\nsecond"));
    assert_eq!(r.candidates[0].element.role.as_deref(), Some("ordered_list"));
    assert_eq!(r.candidates[1].element.role.as_deref(), Some("unordered_list"));
    assert_eq!(r.candidates[2].estimated_lines, 3);
    assert_eq!(r.candidates[2].element.text.as_deref(), Some("Name | Qty | apple | 3"));
    assert_eq!(r.candidates[4].element.element_type, ElementType::Formula);
    assert_eq!(r.candidates[4].element.text.as_deref(), Some("x+y"));
    assert_eq!(r.candidates[4].element.raw.as_deref(), Some("<m:oMath/>"));
    assert_eq!(r.warnings.len(), 1);
    assert_eq!(r.warnings[0].code, "DOCX_IMAGE_EXTRACTION_FAILED");
    assert_eq!(r.warnings[0].message, "Не удалось извлечь изображение DOCX (rId7): missing part");
}

#[test]
fn docx_body_respects_switched_off_kinds() {
    let mut options = DocxOptions::default();
    options.extract_lists = false;
    options.extract_tables = false;
    let blocks = vec![
        DocxBlock::Paragraph(para("item", Some(true))),
        DocxBlock::Table(TABLE_XML.to_string()),
        DocxBlock::Paragraph(para(" ", None)),
    ];
    let r = docx_candidates(blocks, &options);
    assert_eq!(r.candidates.len(), 1);
    assert_eq!(r.candidates[0].element.element_id, "docx_paragraph_1");
    assert!(r.warnings.is_empty());
}

fn asset(id: &str) -> Asset {
    Asset {
        asset_id: id.to_string(),
        asset_type: "embedded_image".to_string(),
        path: format!("assets/images/{}.png", id),
        mime_type: "image/png".to_string(),
        page_number: None,
        width: None,
        height: None,
        sha256: None,
    }
}

#[test]
fn docx_notes_skip_blank_texts() {
    let texts = vec!["first note".to_string(), "  ".to_string(), "second".to_string()];
    let notes = note_candidates(&texts, "word/footnotes.xml", ElementType::Footnote, "w:p", "footnote");
    assert_eq!(notes.len(), 2);
    assert_eq!(notes[0].element.text.as_deref(), Some("first note"));
    assert_eq!(notes[0].element.raw.as_deref(), Some("word/footnotes.xml"));
    assert_eq!(notes[0].element.role.as_deref(), Some("footnote"));
    assert_eq!(notes[0].element.provenance.stage, "docx_extract_notes_comments");
    assert_eq!(notes[1].element.text.as_deref(), Some("second"));
    assert_eq!(notes[1].estimated_lines, 1);
}

#[test]
fn docx_document_lays_out_body_then_notes() {
    let cls = classify_bytes("/tmp/report.docx", b"PK\x03\x04", 4);
    let mut with_images = para("Title words", None);
    with_images.images = vec![DocxImage::Stored("a1".to_string()), DocxImage::Failed("rId2".to_string(), "bad".to_string())];
    let mut with_formula = para("body", None);
    with_formula.formula = Some(("<m:oMath/>".to_string(), "x".to_string()));
    let body = docx_candidates(vec![DocxBlock::Paragraph(with_images), DocxBlock::Paragraph(with_formula)], &DocxOptions::default());
    let notes = note_candidates(&vec!["a note".to_string()], "word/comments.xml", ElementType::Footnote, "w:comment", "comment");
    let read = DocxRead {
        relationships: DocxRelationships::Unparsable("eof".to_string()),
        styles_error: None,
        numbering_error: Some("bad numbering".to_string()),
        body,
        notes,
        assets: vec![asset("a1"), asset("a1")],
    };
    let m = build_docx_document(&cls, &DocxOptions::default(), DocxPackage::Read(read), None);
    assert_eq!(m.pages.len(), 1);
    let ids: Vec<&str> = m.pages[0].elements.iter().map(|e| e.element_id.as_str()).collect();
    assert_eq!(ids, vec!["p1_e1", "p1_e2", "p1_e3", "p1_e4", "p1_e5"]);
    assert_eq!(m.pages[0].elements[4].role.as_deref(), Some("comment"));
    assert_eq!(m.pages[0].elements[4].global_order, Some(5));
    assert_eq!(m.warnings.len(), 3);
    assert_eq!(m.warnings[0].message, "Не удалось разобрать relationships DOCX: eof");
    assert_eq!(m.warnings[1].code, "DOCX_NUMBERING_PARSE_FAILED");
    assert_eq!(m.warnings[2].code, "DOCX_IMAGE_EXTRACTION_FAILED");
    assert_eq!(m.assets.len(), 1);
    assert!(m.document_profile.has_images);
    assert!(m.document_profile.has_formulas);
    assert!(!m.document_profile.has_tables);
    assert_eq!(m.document_profile.document_type_guess.as_deref(), Some("word_document"));
    assert_eq!(m.processing.stages.len(), 10);
    assert_eq!(m.processing.total_duration_ms, Some(10));
    assert_eq!(m.processing.status, ProcessingStatus::Complete);
    assert_eq!(m.stats.element_count, 5);
    assert_eq!(m.coordinate_system.unit, "synthetic");
}

#[test]
fn docx_document_failures_and_disabled() {
    let cls = classify_bytes("/tmp/report.docx", b"PK\x03\x04", 4);
    let bad = build_docx_document(&cls, &DocxOptions::default(), DocxPackage::Unopenable("zip".to_string()), None);
    assert_eq!(bad.errors.len(), 1);
    assert_eq!(bad.errors[0].code, "DOCX_INVALID_PACKAGE");
    assert_eq!(bad.errors[0].message, "Не удалось открыть DOCX пакет: zip");
    assert_eq!(bad.processing.status, ProcessingStatus::Partial);
    assert!(bad.processing.stages.is_empty());

    let missing = build_docx_document(&cls, &DocxOptions::default(), DocxPackage::MissingDocumentXml, None);
    assert_eq!(missing.errors[0].code, "DOCX_DOCUMENT_XML_MISSING");
    assert_eq!(missing.processing.stages.len(), 1);
    assert_eq!(missing.pages.len(), 1);

    let mut off = DocxOptions::default();
    off.enabled = false;
    let d = build_docx_document(&cls, &off, DocxPackage::MissingDocumentXml, None);
    assert!(d.errors.is_empty());
    assert_eq!(d.warnings[0].code, "DOCX_EXTRACTION_DISABLED");
}

#[test]
fn docx_table_rows_cells_spans_and_merges() {
    let t = make_table_element(TABLE_XML, 2).unwrap();
    assert_eq!(t.rows, 2);
    assert_eq!(t.columns, 2);
    assert!(!t.has_merged_cells);
    assert_eq!(t.cells.len(), 4);
    assert_eq!((t.cells[1].row, t.cells[1].column, t.cells[1].text.as_str()), (0, 1, "Qty"));
    assert!(t.cells[1].is_header);
    assert!(!t.cells[2].is_header);
    let e = &t.candidate.element;
    assert_eq!(e.element_id, "docx_table_2");
    assert_eq!(e.role.as_deref(), Some("data_table"));
    assert_eq!(e.raw.as_deref(), Some(TABLE_XML));
    assert_eq!(e.extra[0], ("rows".to_string(), "2".to_string()));
    assert_eq!(e.extra[2], ("has_merged_cells".to_string(), "false".to_string()));
    assert_eq!(t.candidate.estimated_lines, 3);

    let merged = "<w:tbl><w:tr><w:tc><w:tcPr><w:gridSpan w:val=\"3\"/></w:tcPr><w:t>wide</w:t></w:tc></w:tr>\
<w:tr><w:tc><w:tcPr><w:vMerge/></w:tcPr><w:t>a</w:t></w:tc><w:tc><w:t>b</w:t></w:tc></w:tr></w:tbl>";
    let m = make_table_element(merged, 1).unwrap();
    assert_eq!(m.cells[0].colspan, 3);
    assert_eq!(m.cells[1].colspan, 1);
    assert_eq!((m.rows, m.columns), (2, 2));
    assert!(m.has_merged_cells);
    assert_eq!(m.candidate.element.extra[2].1, "true");

    assert!(make_table_element("<w:tbl></w:tbl>", 1).is_none());
    assert!(make_table_element("<w:tbl><w:tr></w:tr></w:tbl>", 1).is_none());
}
