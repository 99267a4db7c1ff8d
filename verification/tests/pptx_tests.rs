use document_parser::classifier::classify_bytes;
use document_parser::extractors::pptx::{
    build_pptx_document, build_pptx_slide, kept_list_items, pptx_image_requests, PptxOptions,
    PptxPackage, PptxSlideRead, build_pptx_presentation, pptx_slide_reads, PptxSlideSource, PptxSource, SlideContent, SlideImage, SlideNotes, SlideShape, SlideTable,
};
use document_parser::model::{Asset, BBox, ContentMode, ElementType, PageType, ProcessingStatus};

fn shape(is_title: bool, text: &str, items: &[&str], rids: &[&str]) -> SlideShape {
    SlideShape {
        is_title,
        text: text.to_string(),
        normalized_text: text.trim().to_string(),
        list_items: items.iter().map(|s| s.to_string()).collect(),
        x: None,
        y: None,
        width: None,
        height: None,
        embed_rids: rids.iter().map(|s| s.to_string()).collect(),
    }
}

fn table() -> SlideTable {
    SlideTable {
        rows: vec![vec!["x".to_string(), "y".to_string()], vec!["z".to_string()]],
        cell_texts: vec!["x".to_string(), "y".to_string(), "z".to_string(), String::new()],
        normalized_text: "x | y | z |".to_string(),
        markdown: "| x | y |\n| --- | --- |\n| z |  |".to_string(),
        html: "<table></table>".to_string(),
        csv: "x,y\nz,".to_string(),
    }
}

fn sample_content() -> SlideContent {
    SlideContent {
        slide_path: "ppt/slides/slide1.xml".to_string(),
        has_charts: true,
        shapes: vec![
            shape(true, "Hello", &[], &["rId2"]),
            shape(false, "a\nb", &["a", "", "b"], &[]),
        ],
        slide_rids: vec!["rId2".to_string(), "rId3".to_string()],
        tables: vec![
            SlideTable { rows: vec![], cell_texts: vec![], ..table() },
            table(),
        ],
        notes: SlideNotes::Found {
            path: "ppt/notesSlides/notesSlide1.xml".to_string(),
            text: "Note".to_string(),
        },
    }
}

fn asset(id: &str) -> Asset {
    Asset {
        asset_id: id.to_string(),
        asset_type: "embedded_image".to_string(),
        path: format!("assets/images/{}.png", id),
        mime_type: "image/png".to_string(),
        page_number: None,
        width: None,
        height: None,
        sha256: None,
    }
}

#[test]
fn kept_list_items_drop_empty_ones() {
    let items = vec!["a".to_string(), String::new(), "b".to_string()];
    assert_eq!(kept_list_items(&items), vec!["a".to_string(), "b".to_string()]);
}

#[test]
fn image_requests_are_unique_and_in_reading_order() {
    let c = sample_content();
    let requests = pptx_image_requests(&c.shapes, &c.slide_rids, &PptxOptions::default());
    assert_eq!(requests, vec!["rId2".to_string(), "rId3".to_string()]);
}

#[test]
fn image_requests_skip_passed_over_titles() {
    let c = sample_content();
    let options = PptxOptions { extract_titles: false, ..PptxOptions::default() };
    let requests = pptx_image_requests(&c.shapes, &c.slide_rids, &options);
    assert_eq!(requests, vec!["rId2".to_string(), "rId3".to_string()]);
    let none = PptxOptions { extract_images: false, ..PptxOptions::default() };
    assert!(pptx_image_requests(&c.shapes, &c.slide_rids, &none).is_empty());
}

#[test]
fn slide_elements_follow_the_reading_order() {
    let c = sample_content();
    let images = vec![
        SlideImage::Stored {
            target: "ppt/media/image1.png".to_string(),
            asset_id: "img1".to_string(),
        },
        SlideImage::RelationshipMissing,
    ];
    let out = build_pptx_slide(0, &c, &images, &PptxOptions::default(), false, false);
    let es = &out.page.elements;
    let kinds: Vec<ElementType> = es.iter().map(|e| e.element_type).collect();
    assert_eq!(
        kinds,
        vec![
            ElementType::Heading,
            ElementType::Image,
            ElementType::List,
            ElementType::Text,
            ElementType::Table,
            ElementType::Text,
        ]
    );
    let ids: Vec<&str> = es.iter().map(|e| e.element_id.as_str()).collect();
    assert_eq!(ids, vec!["p1_e1", "p1_e2", "p1_e3", "p1_e4", "p1_e5", "p1_e6"]);
    assert_eq!(es[0].markdown.as_deref(), Some("# Hello"));
    assert_eq!(es[0].bbox, Some(BBox { x0: 0, y0: 16, x1: 1000, y1: 44 }));
    assert_eq!(es[1].bbox, Some(BBox { x0: 0, y0: 48, x1: 1000, y1: 76 }));
    assert_eq!(es[1].extra, vec![("asset_id".to_string(), "img1".to_string())]);
    assert_eq!(es[2].text.as_deref(), Some("a\nb"));
    assert_eq!(es[2].markdown.as_deref(), Some("- a\n- b"));
    assert_eq!(es[2].bbox, Some(BBox { x0: 0, y0: 104, x1: 1000, y1: 132 }));
    assert_eq!(es[3].bbox, Some(BBox { x0: 0, y0: 144, x1: 1000, y1: 172 }));
    assert_eq!(es[4].text.as_deref(), Some("x | y | z | "));
    assert_eq!(es[4].raw.as_deref(), Some("table_2"));
    assert_eq!(es[4].bbox, Some(BBox { x0: 0, y0: 176, x1: 1000, y1: 224 }));
    assert_eq!(es[4].extra[1], ("columns".to_string(), "2".to_string()));
    assert_eq!(es[5].role.as_deref(), Some("speaker_notes"));
    assert_eq!(es[5].bbox, Some(BBox { x0: 0, y0: 240, x1: 1000, y1: 340 }));
    assert_eq!(out.page.text, "Hello\na\nb\na\nb\nx | y | z | ");
    assert_eq!(out.page.page_type, PageType::Slide);
    assert_eq!(out.page.page_profile.content_mode, ContentMode::Slide);
    assert!(out.has_tables && out.has_images);
    let codes: Vec<&str> = out.warnings.iter().map(|d| d.code.as_str()).collect();
    assert_eq!(codes, vec!["PPTX_CHART_EXTRACTION_PARTIAL", "PPTX_RELATIONSHIP_MISSING"]);
    assert_eq!(out.warnings[1].message, "Не найдена связь изображения для rId3");
}

#[test]
fn shape_positions_are_kept_when_known() {
    let mut c = sample_content();
    c.shapes[0].x = Some(10);
    c.shapes[0].y = Some(20);
    c.shapes[0].width = Some(300);
    c.shapes[0].height = Some(40);
    c.notes = SlideNotes::Missing;
    let images = vec![
        SlideImage::MediaMissing("ppt/media/gone.png".to_string()),
        SlideImage::RelationshipMissing,
    ];
    let out = build_pptx_slide(2, &c, &images, &PptxOptions::default(), true, false);
    assert_eq!(out.page.page_number, 3);
    assert_eq!(out.page.elements[0].bbox, Some(BBox { x0: 10, y0: 20, x1: 310, y1: 60 }));
    assert!(out.has_tables);
    assert!(!out.has_images);
    let codes: Vec<&str> = out.warnings.iter().map(|d| d.code.as_str()).collect();
    assert_eq!(
        codes,
        vec![
            "PPTX_CHART_EXTRACTION_PARTIAL",
            "PPTX_IMAGE_EXTRACTION_FAILED",
            "PPTX_RELATIONSHIP_MISSING",
            "PPTX_NOTES_SKIPPED",
        ]
    );
    assert_eq!(out.warnings[1].message, "Не найден media-файл PPTX: ppt/media/gone.png");
}

#[test]
fn presentation_model_collects_slides_and_assets() {
    let bytes = b"PK\x03\x04";
    let cls = classify_bytes("/tmp/deck.pptx", bytes, 4);
    let c = sample_content();
    let images = vec![
        SlideImage::Stored {
            target: "ppt/media/image1.png".to_string(),
            asset_id: "img1".to_string(),
        },
        SlideImage::RelationshipMissing,
    ];
    let out = build_pptx_slide(1, &c, &images, &PptxOptions::default(), false, false);
    let package = PptxPackage::Slides(
        vec![PptxSlideRead::Missing("ppt/slides/slide1.xml".to_string()), PptxSlideRead::Read(out)],
        vec![asset("img1"), asset("img1")],
    );
    let m = build_pptx_document(&cls, &PptxOptions::default(), package, None);
    assert_eq!(m.pages.len(), 1);
    assert_eq!(m.assets.len(), 1);
    assert_eq!(m.coordinate_system.unit, "synthetic");
    assert_eq!(m.processing.stages.len(), 8);
    assert_eq!(m.processing.total_duration_ms, Some(8));
    assert_eq!(m.processing.status, ProcessingStatus::Complete);
    assert_eq!(m.warnings[0].code, "PPTX_SLIDE_PARSE_FAILED");
    assert_eq!(m.warnings[0].message, "Не найден XML слайда: ppt/slides/slide1.xml");
    assert_eq!(m.warnings.len(), 3);
    assert!(m.document_profile.has_tables && m.document_profile.has_images);
    assert_eq!(m.stats.page_count, 1);
    assert_eq!(m.stats.table_count, 1);
}

#[test]
fn presentation_without_readable_slides_fails() {
    let cls = classify_bytes("/tmp/deck.pptx", b"PK\x03\x04", 4);
    let package = PptxPackage::Slides(vec![PptxSlideRead::Missing("ppt/slides/slide1.xml".to_string())], vec![]);
    let m = build_pptx_document(&cls, &PptxOptions::default(), package, None);
    assert_eq!(m.processing.status, ProcessingStatus::Failed);
    assert_eq!(m.errors.len(), 1);
    assert_eq!(m.errors[0].code, "PPTX_SLIDE_PARSE_FAILED");

    let empty = build_pptx_document(&cls, &PptxOptions::default(), PptxPackage::Slides(vec![], vec![]), None);
    assert_eq!(empty.errors[0].code, "PPTX_PRESENTATION_XML_MISSING");
    assert_eq!(empty.processing.stages.len(), 1);

    let broken = build_pptx_document(&cls, &PptxOptions::default(), PptxPackage::Unopenable("bad zip".to_string()), None);
    assert_eq!(broken.errors[0].code, "PPTX_INVALID_PACKAGE");
    assert_eq!(broken.errors[0].message, "Не удалось открыть PPTX пакет: bad zip");
    assert!(broken.processing.stages.is_empty());

    let unparsable =
        build_pptx_document(&cls, &PptxOptions::default(), PptxPackage::Unparsable("eof".to_string()), None);
    assert_eq!(unparsable.errors[0].message, "Не удалось разобрать presentation.xml: eof");
}

#[test]
fn disabled_presentation_extraction_only_warns() {
    let cls = classify_bytes("/tmp/deck.pptx", b"PK\x03\x04", 4);
    let options = PptxOptions { enabled: false, ..PptxOptions::default() };
    let m = build_pptx_document(&cls, &options, PptxPackage::Unopenable("ignored".to_string()), None);
    assert!(m.pages.is_empty());
    assert!(m.errors.is_empty());
    assert_eq!(m.warnings.len(), 1);
    assert_eq!(m.warnings[0].code, "PPTX_EXTRACTION_DISABLED");
    assert_eq!(m.processing.status, ProcessingStatus::Complete);
}

#[test]
fn slides_are_numbered_by_their_position() {
    let cls = classify_bytes("/tmp/deck.pptx", b"PK\x03\x04", 4);
    let images = || {
        vec![
            SlideImage::Stored { target: "ppt/media/image1.png".to_string(), asset_id: "img1".to_string() },
            SlideImage::RelationshipMissing,
        ]
    };
    let sources = vec![
        PptxSlideSource::Missing("ppt/slides/slide1.xml".to_string()),
        PptxSlideSource::Found(sample_content(), images()),
        PptxSlideSource::Found(sample_content(), images()),
    ];
    let reads = pptx_slide_reads(sources, &PptxOptions::default());
    assert_eq!(reads.len(), 3);
    assert!(matches!(&reads[0], PptxSlideRead::Missing(p) if p == "ppt/slides/slide1.xml"));
    match (&reads[1], &reads[2]) {
        (PptxSlideRead::Read(a), PptxSlideRead::Read(b)) => {
            assert_eq!(a.page.page_number, 2);
            assert_eq!(b.page.page_number, 3);
            assert_eq!(b.page.elements[0].element_id, "p3_e1");
        }
        _ => panic!("slides were not read"),
    }
    let m = build_pptx_presentation(
        &cls,
        &PptxOptions::default(),
        PptxSource::Slides(
            vec![PptxSlideSource::Missing("x.xml".to_string()), PptxSlideSource::Found(sample_content(), images())],
            vec![asset("img1")],
        ),
        None,
    );
    assert_eq!(m.pages.len(), 1);
    assert_eq!(m.pages[0].page_number, 2);
    let bad = build_pptx_presentation(&cls, &PptxOptions::default(), PptxSource::Unopenable("zip".to_string()), None);
    assert_eq!(bad.errors[0].code, "PPTX_INVALID_PACKAGE");
}
