use document_parser::classifier::classify_bytes;
use document_parser::extractors::xlsx::{
    build_xlsx_document, build_xlsx_sheet, xlsx_sheet_segments, xlsx_table_ranges, SegmentRendering,
    SheetImage, SheetSegment, TableRange, XlsxOptions, XlsxSheetRead, build_xlsx_workbook, xlsx_sheet_reads,
    XlsxSheetSource,
};
use document_parser::model::{Asset, BBox, ElementType, ProcessingStatus};

fn rows(data: &[&[&str]]) -> Vec<Vec<String>> {
    data.iter().map(|r| r.iter().map(|c| c.to_string()).collect()).collect()
}

fn rendering(cells: &[&str], markdown: &str) -> SegmentRendering {
    SegmentRendering {
        cell_texts: cells.iter().map(|c| c.to_string()).collect(),
        normalized_text: cells.join(" | "),
        markdown: markdown.to_string(),
        html: "<table></table>".to_string(),
        csv: cells.join(","),
    }
}

fn asset(id: &str) -> Asset {
    Asset {
        asset_id: id.to_string(),
        asset_type: "embedded_image".to_string(),
        path: format!("assets/images/{}.png", id),
        mime_type: "image/png".to_string(),
        page_number: None,
        width: None,
        height: None,
        sha256: None,
    }
}

#[test]
fn undetected_tables_cover_the_used_range() {
    let r = rows(&[&["a", "b", "c"], &["d"]]);
    let ranges = xlsx_table_ranges(&r, &vec![], false);
    assert_eq!(ranges, vec![TableRange { start_row: 0, end_row: 1, start_col: 0, end_col: 2 }]);
    assert!(xlsx_table_ranges(&vec![], &vec![], false).is_empty());
    let detected = vec![TableRange { start_row: 3, end_row: 4, start_col: 1, end_col: 1 }];
    assert_eq!(xlsx_table_ranges(&r, &detected, true), detected);
}

#[test]
fn long_ranges_are_cut_into_segments() {
    let r = rows(&[&["h"], &["1"], &["2"], &["3"], &["4"]]);
    let options = XlsxOptions { detect_tables: false, max_rows_per_table_element: 2, ..XlsxOptions::default() };
    let segs = xlsx_sheet_segments(&r, &vec![], &options);
    let spans: Vec<(usize, usize)> = segs.iter().map(|s| (s.start_row, s.end_row)).collect();
    assert_eq!(spans, vec![(0, 1), (2, 3), (4, 4)]);
    assert!(segs.iter().all(|s| s.range == 0 && s.start_col == 0 && s.end_col == 0));
    let zero = XlsxOptions { detect_tables: false, max_rows_per_table_element: 0, ..XlsxOptions::default() };
    assert_eq!(xlsx_sheet_segments(&r, &vec![], &zero).len(), 5);
}

#[test]
fn sheet_tables_count_formulas_and_follow_each_other() {
    let r = rows(&[&["Item", "Total"], &["x", " =SUM(A1:A2)"], &["y", "="]]);
    let options = XlsxOptions { detect_tables: false, max_rows_per_table_element: 2, ..XlsxOptions::default() };
    let renderings = vec![
        rendering(&["Item", "Total", "x", "=SUM(A1:A2)"], "| Item | Total |"),
        rendering(&["y", "="], "| y | = |"),
    ];
    let images = vec![SheetImage { index: 2, entry: "xl/media/image3.png".to_string(), asset: asset("img3") }];
    let out = build_xlsx_sheet(1, &"Budget".to_string(), &r, &vec![], &renderings, images, &options, 5, false);
    let es = &out.page.elements;
    assert_eq!(es.len(), 3);
    assert_eq!(es[0].element_id, "sheet2_table1_1");
    assert_eq!(es[1].element_id, "sheet2_table1_3");
    assert_eq!(es[0].global_order, Some(5));
    assert_eq!(es[1].reading_order, Some(2));
    assert_eq!(es[0].bbox, Some(BBox { x0: 0, y0: 0, x1: 1000, y1: 36 }));
    assert_eq!(es[1].bbox, Some(BBox { x0: 0, y0: 48, x1: 1000, y1: 68 }));
    assert_eq!(es[0].raw.as_deref(), Some("Budget!A1:B3"));
    assert_eq!(es[0].extra.len(), 4);
    assert_eq!(es[0].extra[3], ("formula_cells".to_string(), "1".to_string()));
    assert_eq!(es[1].extra.len(), 3);
    assert_eq!(es[2].element_type, ElementType::Image);
    assert_eq!(es[2].element_id, "sheet2_image_3");
    assert_eq!(es[2].global_order, Some(7));
    assert_eq!(es[2].warnings[0].code, "XLSX_IMAGE_POSITION_APPROXIMATE");
    assert_eq!(out.next_global, 7);
    assert!(out.has_formulas);
    assert_eq!(out.assets.len(), 1);
    assert_eq!(out.page.page_number, 2);
    assert_eq!(out.page.text, "Item | Total | x | =SUM(A1:A2)\ny | =");
    assert_eq!(out.page.markdown, "# Budget\n\n| Item | Total |\n\n| y | = |");
    assert!(out.page.page_profile.has_tables && out.page.page_profile.has_images);
}

#[test]
fn workbook_model_gathers_sheets_and_warnings() {
    let cls = classify_bytes("/tmp/book.xlsx", b"PK\x03\x04", 4);
    let options = XlsxOptions { detect_tables: false, ..XlsxOptions::default() };
    let r = rows(&[&["a"]]);
    let out = build_xlsx_sheet(0, &"One".to_string(), &r, &vec![], &vec![rendering(&["a"], "| a |")], vec![], &options, 1, false);
    let sheets = vec![
        XlsxSheetRead::Read(out),
        XlsxSheetRead::Unreadable { name: "Two".to_string(), error: "broken".to_string() },
    ];
    let m = build_xlsx_document(&cls, &options, sheets, None);
    assert_eq!(m.pages.len(), 1);
    let codes: Vec<&str> = m.warnings.iter().map(|d| d.code.as_str()).collect();
    assert_eq!(codes, vec!["XLSX_COMMENTS_SKIPPED", "XLSX_SHEET_READ_FAILED"]);
    assert_eq!(m.warnings[1].message, "Не удалось прочитать лист 'Two': broken");
    assert!(m.document_profile.has_tables);
    assert!(!m.document_profile.has_formulas);
    assert_eq!(m.document_profile.document_type_guess.as_deref(), Some("spreadsheet"));
    assert_eq!(m.processing.stages.len(), 7);
    assert_eq!(m.processing.stages[0].tool, "calamine");
    assert_eq!(m.processing.total_duration_ms, Some(7));
    assert_eq!(m.stats.table_count, 1);
}

#[test]
fn empty_or_disabled_workbooks_only_warn() {
    let cls = classify_bytes("/tmp/book.xlsx", b"PK\x03\x04", 4);
    let empty = build_xlsx_document(&cls, &XlsxOptions::default(), vec![], None);
    assert_eq!(empty.warnings[0].code, "XLSX_EMPTY_WORKBOOK");
    assert_eq!(empty.processing.status, ProcessingStatus::Partial);
    assert!(empty.pages.is_empty());
    let off = XlsxOptions { enabled: false, ..XlsxOptions::default() };
    let disabled = build_xlsx_document(&cls, &off, vec![], None);
    assert_eq!(disabled.warnings[0].code, "XLSX_EXTRACTION_DISABLED");
    assert_eq!(disabled.pages.len(), 1);
    assert!(disabled.processing.stages.is_empty());
    let _unused = SheetSegment { range: 0, start_row: 0, end_row: 0, start_col: 0, end_col: 0 };
}

fn found(name: &str, cell: &str) -> XlsxSheetSource {
    XlsxSheetSource::Found {
        name: name.to_string(),
        rows: rows(&[&[cell]]),
        detected: vec![],
        renderings: vec![rendering(&[cell], "| x |")],
        images: vec![],
    }
}

#[test]
fn sheets_are_numbered_by_their_position() {
    let options = XlsxOptions { detect_tables: false, ..XlsxOptions::default() };
    let sources = vec![
        found("One", "a"),
        XlsxSheetSource::Unreadable { name: "Two".to_string(), error: "broken".to_string() },
        found("Three", "=1+1"),
    ];
    let reads = xlsx_sheet_reads(sources, &options);
    match (&reads[0], &reads[1], &reads[2]) {
        (XlsxSheetRead::Read(a), XlsxSheetRead::Unreadable { name, .. }, XlsxSheetRead::Read(c)) => {
            assert_eq!(a.page.page_number, 1);
            assert_eq!(name, "Two");
            assert_eq!(c.page.page_number, 3);
            assert_eq!(a.page.elements[0].global_order, Some(1));
            assert_eq!(c.page.elements[0].global_order, Some(2));
            assert_eq!(c.page.elements[0].element_id, "sheet3_table1_1");
            assert!(c.page.markdown.starts_with("# Three"));
        }
        _ => panic!("unexpected reads"),
    }
    let cls = classify_bytes("/tmp/book.xlsx", b"PK\x03\x04", 4);
    let m = build_xlsx_workbook(&cls, &options, vec![found("One", "a"), found("Two", "b")], None);
    let numbers: Vec<u32> = m.pages.iter().map(|p| p.page_number).collect();
    assert_eq!(numbers, vec![1, 2]);
}
