use document_parser::api::{
    check_queue_room, healthz, is_ready, job_create_error, missing_file_error, model_missing_error,
    multipart_error, multipart_field_error, new_document_id, new_job_id, ready_response,
    upload_accepted, upload_read_error, upload_store_error, Readiness,
};
use document_parser::chunking::SemanticChunker;
use document_parser::classifier::classify_bytes;
use document_parser::converters::conversion_pipeline::{fallback_error, next_attempt};
use document_parser::converters::traits::ConversionError;
use document_parser::doctor::{
    check_converter, pipeline_config_check, render_doctor_report_text, storage_check, DoctorCheck,
    DoctorReport, DoctorStatus,
};
use document_parser::extractors::txt::build_txt_document;
use document_parser::jobs::{
    Job,
    apply_form_field, check_assets_limit, check_page_limit, parse_flag, parse_languages, settle_job,
    JobRunOutcome, JobStatus, ProcessingOptions,
};
use document_parser::language::{
    contains_cyrillic, contains_latin, cyrillic_ratio_permille, latin_ratio_permille,
    HeuristicLanguageDetector, LanguageDetector,
};
use document_parser::layout::headers_footers::{
    apply_header_footer_marks, detect_repeated_headers_footers, is_page_number_like,
    normalize_text_for_repeat,
};
use document_parser::layout::reading_order::{assign_layout_aware_reading_order, ReadingOrderOptions};
use document_parser::layout::types::{should_create_placeholder, LayoutRegionType};
use document_parser::model::{
    BBox, ContentMode, Element, ElementType, Page, PageProfile, PageType, ProcessingStatus,
    Provenance,
};

fn check(status: DoctorStatus) -> DoctorCheck {
    DoctorCheck { code: "C".to_string(), status, message: "m".to_string() }
}

fn element(id: &str, kind: ElementType, text: &str, bbox: Option<BBox>) -> Element {
    Element {
        element_id: id.to_string(),
        element_type: kind,
        tag: None,
        role: None,
        reading_order: None,
        global_order: None,
        bbox,
        text: Some(text.to_string()),
        markdown: Some(text.to_string()),
        html: None,
        normalized_text: None,
        raw: None,
        items: vec![],
        exclude_from_chunks: false,
        table_linearized: vec![],
        provenance: Provenance {
            method: "native".to_string(),
            tool: "t".to_string(),
            stage: "s".to_string(),
            source_kind: None,
            source_value: None,
        },
        confidence_permille: 990,
        warnings: vec![],
        extra: vec![],
    }
}

fn page(number: u32, elements: Vec<Element>) -> Page {
    Page {
        page_number: number,
        page_type: PageType::DocumentPage,
        width: Some(1000),
        height: Some(1400),
        page_image_asset_id: None,
        page_profile: PageProfile {
            content_mode: ContentMode::Digital,
            has_native_text: true,
            has_ocr_required_regions: false,
            has_tables: false,
            has_images: false,
            has_formulas: false,
            has_handwriting: false,
            language: Some("ru".to_string()),
            confidence_permille: 900,
        },
        elements,
        text: String::new(),
        markdown: String::new(),
        html: String::new(),
        warnings: vec![],
    }
}

fn bbox(x0: i64, y0: i64, x1: i64, y1: i64) -> Option<BBox> {
    Some(BBox { x0, y0, x1, y1 })
}

#[test]
fn doctor_overall_status_is_the_gravest_check() {
    let empty = DoctorReport { generated_at: "t".to_string(), checks: vec![] };
    assert_eq!(empty.overall_status(), DoctorStatus::Pass);
    let warn = DoctorReport { generated_at: "t".to_string(), checks: vec![check(DoctorStatus::Pass), check(DoctorStatus::Warn)] };
    assert_eq!(warn.overall_status(), DoctorStatus::Warn);
    let err = DoctorReport {
        generated_at: "t".to_string(),
        checks: vec![check(DoctorStatus::Warn), check(DoctorStatus::Error), check(DoctorStatus::Pass)],
    };
    assert_eq!(err.overall_status(), DoctorStatus::Error);
}

#[test]
fn doctor_adding_a_check_never_lowers_the_status() {
    let mut report = DoctorReport { generated_at: "t".to_string(), checks: vec![check(DoctorStatus::Error)] };
    report.checks.push(check(DoctorStatus::Pass));
    assert_eq!(report.overall_status(), DoctorStatus::Error);
}

#[test]
fn doctor_text_report_lists_levels_and_messages() {
    let report = DoctorReport {
        generated_at: "t".to_string(),
        checks: vec![
            pipeline_config_check(None),
            pipeline_config_check(Some("bad json")),
            storage_check("output", "/data/out", None),
        ],
    };
    assert_eq!(report.checks[1].code, "DOCTOR_CONFIG_INVALID");
    assert_eq!(report.checks[1].message, "Ошибка загрузки pipeline-конфига: bad json");
    assert_eq!(report.checks[2].message, "Каталог output доступен для записи: /data/out");
    assert_eq!(
        render_doctor_report_text(&report),
        "Проверка окружения document-parser\n\nOK: Конфигурация pipeline загружена.\nERROR: Ошибка загрузки pipeline-конфига: bad json\nOK: Каталог output доступен для записи: /data/out\n"
    );
}

#[test]
fn doctor_converter_checks_warn_when_missing() {
    let mut checks = vec![];
    check_converter("pandoc", true, &mut checks);
    check_converter("soffice", false, &mut checks);
    assert_eq!(checks[0].code, "DOCTOR_CONVERTER_AVAILABLE");
    assert_eq!(checks[1].code, "DOCTOR_CONVERTER_MISSING");
    assert_eq!(checks[1].status, DoctorStatus::Warn);
    assert_eq!(checks[1].message, "soffice не найден в PATH.");
    let unavailable = storage_check("input", "/in", Some("denied"));
    assert_eq!(unavailable.code, "DOCTOR_STORAGE_UNAVAILABLE");
    assert_eq!(unavailable.message, "Каталог input недоступен для записи (/in): denied");
}

fn readiness() -> Readiness {
    Readiness {
        config_valid: true,
        storage_ready: true,
        model_registry_ready: true,
        queue_closed: false,
        queue_remaining: 5,
        workers: 2,
    }
}

#[test]
fn ready_answers_ok_exactly_when_ready() {
    let r = readiness();
    assert!(is_ready(&r));
    let ans = ready_response(&r);
    assert_eq!(ans.status, "ok");
    assert_eq!(ans.message, None);
    assert_eq!(ans.queue_capacity_remaining, 5);

    let full = Readiness { queue_remaining: 0, ..readiness() };
    assert!(!is_ready(&full));
    let ans = ready_response(&full);
    assert_eq!(ans.status, "degraded");
    assert_eq!(ans.message.as_deref(), Some("Очередь обработки заполнена."));

    let closed = Readiness { queue_closed: true, ..readiness() };
    let ans = ready_response(&closed);
    assert_eq!(ans.status, "failed");
    assert_eq!(ans.queue_capacity_remaining, 0);

    let models = Readiness { model_registry_ready: false, ..readiness() };
    assert_eq!(ready_response(&models).status, "degraded");
    let config = Readiness { config_valid: false, storage_ready: false, ..readiness() };
    assert_eq!(ready_response(&config).message.as_deref(), Some("Конфигурация сервиса невалидна."));
    assert_eq!(healthz().status, "ok");
}

#[test]
fn api_errors_for_uploads() {
    assert!(check_queue_room(1).is_ok());
    let e = check_queue_room(0).unwrap_err();
    assert_eq!(e.status, 429);
    assert_eq!(e.payload.code, "QUEUE_FULL");
    let big = multipart_error("Request body length limit exceeded");
    assert_eq!(big.status, 413);
    assert_eq!(big.payload.code, "DOCUMENT_TOO_LARGE");
    let bad = multipart_error("unexpected end of stream");
    assert_eq!(bad.status, 400);
    assert_eq!(bad.payload.code, "INVALID_MULTIPART");
    assert_eq!(missing_file_error().payload.code, "FILE_FIELD_MISSING");
    let accepted = upload_accepted("job-1".to_string(), "doc-1".to_string());
    assert_eq!(accepted.status, JobStatus::Queued);
    assert_eq!(accepted.message, "Документ принят в обработку.");
    assert_eq!(model_missing_error(Some(JobStatus::Processing)).status, 409);
    assert_eq!(model_missing_error(Some(JobStatus::Failed)).status, 404);
    assert_eq!(model_missing_error(None).payload.code, "DOCUMENT_NOT_FOUND");
}

#[test]
fn job_form_fields_and_flags() {
    assert!(parse_flag("TRUE"));
    assert!(parse_flag("1"));
    assert!(parse_flag("Yes"));
    assert!(!parse_flag("on"));
    assert_eq!(parse_languages(" ru, en ,,"), vec!["ru".to_string(), "en".to_string()]);
    let mut o = ProcessingOptions::default();
    apply_form_field(&mut o, "languages", " , ");
    assert!(o.languages.is_none());
    apply_form_field(&mut o, "languages", "ru,en");
    apply_form_field(&mut o, "extract_tables", "no");
    apply_form_field(&mut o, "table_chunks", "yes");
    apply_form_field(&mut o, "language", "ru");
    apply_form_field(&mut o, "unknown", "x");
    assert_eq!(o.languages, Some(vec!["ru".to_string(), "en".to_string()]));
    assert_eq!(o.extract_tables, Some(false));
    assert_eq!(o.table_chunks, Some(true));
    assert_eq!(o.language.as_deref(), Some("ru"));
    assert!(o.domain.is_none());
}

#[test]
fn job_outcomes_settle_statuses_and_errors() {
    let (s, e) = settle_job(&JobRunOutcome::Finished(ProcessingStatus::Partial));
    assert_eq!(s, JobStatus::Partial);
    assert!(e.is_none());
    let (s, e) = settle_job(&JobRunOutcome::Failed("MAX_PAGES_LIMIT_EXCEEDED".to_string()));
    assert_eq!(s, JobStatus::Failed);
    let e = e.unwrap();
    assert_eq!(e.code, "DOCUMENT_TOO_LARGE");
    assert!(!e.recoverable);
    let (_, e) = settle_job(&JobRunOutcome::Failed("disk full".to_string()));
    let e = e.unwrap();
    assert_eq!(e.code, "PROCESSING_FAILED");
    assert_eq!(e.message, "Ошибка обработки документа: disk full");
    assert!(e.recoverable);
    let (s, e) = settle_job(&JobRunOutcome::TimedOut);
    assert_eq!(s, JobStatus::Failed);
    assert_eq!(e.unwrap().code, "PROCESSING_TIMEOUT");
}

#[test]
fn job_limits() {
    assert!(check_page_limit(10, 10).is_ok());
    assert_eq!(check_page_limit(11, 10), Err("MAX_PAGES_LIMIT_EXCEEDED".to_string()));
    assert!(check_assets_limit(1024 * 1024, 1).is_ok());
    assert_eq!(check_assets_limit(1024 * 1024 + 1, 1), Err("OUTPUT_ASSETS_LIMIT_EXCEEDED".to_string()));
    assert!(check_assets_limit(u64::MAX, u64::MAX).is_ok());
}

#[test]
fn language_shares_and_detection() {
    assert!(contains_cyrillic("abc Ж"));
    assert!(!contains_cyrillic("abc"));
    assert!(contains_latin("Жx"));
    assert_eq!(cyrillic_ratio_permille("ЖЖЖx"), 750);
    assert_eq!(latin_ratio_permille("ЖЖЖx"), 250);
    assert_eq!(cyrillic_ratio_permille("123"), 0);
    let d = HeuristicLanguageDetector::default();
    let short = d.detect("Привет", &vec![]);
    assert_eq!(short.primary.as_deref(), Some("ru"));
    assert_eq!(short.confidence_permille, Some(200));
    assert_eq!(short.hints, vec!["ru".to_string(), "en".to_string()]);
    let russian = d.detect("Это достаточно длинный русский текст для определения языка документа.", &vec![]);
    assert_eq!(russian.primary.as_deref(), Some("ru"));
    assert_eq!(russian.confidence_permille, Some(900));
    assert!(!russian.is_mixed);
}

#[test]
fn region_type_names_round_trip() {
    let all = [
        LayoutRegionType::Text,
        LayoutRegionType::Title,
        LayoutRegionType::List,
        LayoutRegionType::Table,
        LayoutRegionType::Figure,
        LayoutRegionType::Formula,
        LayoutRegionType::Header,
        LayoutRegionType::Footer,
        LayoutRegionType::Footnote,
        LayoutRegionType::Caption,
        LayoutRegionType::Watermark,
        LayoutRegionType::Sidebar,
        LayoutRegionType::Code,
        LayoutRegionType::Unknown,
    ];
    for t in all {
        assert_eq!(LayoutRegionType::from_str(t.as_str()), t);
    }
    assert_eq!(LayoutRegionType::from_str("TaBlE"), LayoutRegionType::Table);
    assert_eq!(LayoutRegionType::from_str("picture"), LayoutRegionType::Unknown);
    assert!(should_create_placeholder(&LayoutRegionType::Figure));
    assert!(!should_create_placeholder(&LayoutRegionType::Text));
}

#[test]
fn reading_order_sorts_by_position_and_keeps_every_element() {
    let mut pages = vec![page(
        1,
        vec![
            element("low", ElementType::Paragraph, "low", bbox(0, 500, 900, 520)),
            element("top", ElementType::Heading, "top", bbox(0, 10, 900, 40)),
            element("mid", ElementType::Paragraph, "mid", bbox(0, 200, 900, 220)),
        ],
    )];
    assign_layout_aware_reading_order(&mut pages, &[], ReadingOrderOptions::default());
    let ids: Vec<&str> = pages[0].elements.iter().map(|e| e.element_id.as_str()).collect();
    assert_eq!(ids, vec!["top", "mid", "low"]);
    let orders: Vec<Option<u32>> = pages[0].elements.iter().map(|e| e.reading_order).collect();
    assert_eq!(orders, vec![Some(1), Some(2), Some(3)]);
}

#[test]
fn reading_order_moves_a_caption_behind_its_figure() {
    let mut pages = vec![
        page(1, vec![element("a", ElementType::Paragraph, "a", bbox(0, 0, 900, 20))]),
        page(
            2,
            vec![
                element("fig", ElementType::Image, "", bbox(0, 100, 500, 300)),
                element("para", ElementType::Paragraph, "p", bbox(0, 305, 1000, 330)),
                element("cap", ElementType::Caption, "Рис. 1", bbox(0, 310, 500, 330)),
            ],
        ),
    ];
    assign_layout_aware_reading_order(&mut pages, &[], ReadingOrderOptions::default());
    let ids: Vec<&str> = pages[1].elements.iter().map(|e| e.element_id.as_str()).collect();
    assert_eq!(ids, vec!["fig", "cap", "para"]);
    let globals: Vec<Option<u32>> = pages[1].elements.iter().map(|e| e.global_order).collect();
    assert_eq!(globals, vec![Some(2), Some(3), Some(4)]);
}

#[test]
fn natural_reading_order_keeps_the_given_order() {
    let mut pages = vec![page(
        1,
        vec![
            element("low", ElementType::Paragraph, "low", bbox(0, 500, 900, 520)),
            element("top", ElementType::Heading, "top", bbox(0, 10, 900, 40)),
        ],
    )];
    let options = ReadingOrderOptions { strategy: "Natural".to_string(), ..ReadingOrderOptions::default() };
    assign_layout_aware_reading_order(&mut pages, &[], options);
    let ids: Vec<&str> = pages[0].elements.iter().map(|e| e.element_id.as_str()).collect();
    assert_eq!(ids, vec!["low", "top"]);
}

#[test]
fn repeated_headers_and_page_numbers_are_marked() {
    let mut pages: Vec<Page> = (1..=3)
        .map(|n| {
            page(
                n,
                vec![
                    element(&format!("h{}", n), ElementType::Paragraph, "ООО  Ромашка", bbox(0, 20, 900, 40)),
                    element(&format!("b{}", n), ElementType::Paragraph, "тело", bbox(0, 600, 900, 620)),
                    element(&format!("f{}", n), ElementType::Paragraph, &n.to_string(), bbox(480, 1350, 520, 1380)),
                ],
            )
        })
        .collect();
    let result = detect_repeated_headers_footers(&pages);
    assert_eq!(result.header_element_ids, vec!["h1".to_string(), "h2".to_string(), "h3".to_string()]);
    assert_eq!(result.footer_element_ids, vec!["f1".to_string(), "f2".to_string(), "f3".to_string()]);
    apply_header_footer_marks(&mut pages, &result);
    assert_eq!(pages[0].elements[0].element_type, ElementType::Header);
    assert_eq!(pages[0].elements[0].role.as_deref(), Some("repeated_header"));
    assert_eq!(pages[1].elements[2].element_type, ElementType::Footer);
    assert_eq!(pages[1].elements[2].role.as_deref(), Some("page_number"));
    assert_eq!(pages[2].elements[1].element_type, ElementType::Paragraph);
    assert_eq!(normalize_text_for_repeat("  ООО \t Ромашка  "), "ООО Ромашка");
    assert_eq!(normalize_text_for_repeat(" ACME\n  Corp "), "acme corp");
    assert!(is_page_number_like(" 12 "));
    assert!(is_page_number_like("стр. 3"));
    assert!(!is_page_number_like("глава"));
}

#[test]
fn chunks_name_every_kept_element_once_in_order() {
    let text = "ГЛАВА ПЕРВАЯ\nТекст первой главы.\nЕщё строка.\nГЛАВА ВТОРАЯ\nТекст второй главы.\n";
    let c = classify_bytes("book.txt", text.as_bytes(), text.len() as u64);
    let m = build_txt_document(&c, text, None, None, None);
    let chunks = SemanticChunker::default().chunk_document(&m);
    let ids: Vec<String> = chunks.iter().flat_map(|c| c.element_ids.clone()).collect();
    let expected: Vec<String> = m.pages[0].elements.iter().map(|e| e.element_id.clone()).collect();
    assert_eq!(ids, expected);
    assert!(chunks.iter().all(|c| !c.element_ids.is_empty()));
    assert_eq!(chunks.len(), 2);
    assert_eq!(chunks[0].title.as_deref(), Some("ГЛАВА ПЕРВАЯ"));
}

#[test]
fn fallback_attempts_go_target_by_target_then_converter_by_converter() {
    let supported = vec![vec![false, true], vec![true, true], vec![false, false]];
    assert_eq!(next_attempt(&supported, None), Some((0, 1)));
    assert_eq!(next_attempt(&supported, Some((0, 1))), Some((1, 0)));
    assert_eq!(next_attempt(&supported, Some((1, 0))), Some((1, 1)));
    assert_eq!(next_attempt(&supported, Some((1, 1))), None);
    assert_eq!(next_attempt(&vec![], None), None);
    assert_eq!(next_attempt(&supported, Some((0, usize::MAX))), Some((1, 0)));
    let none = fallback_error(&vec![]);
    assert_eq!(none.code, "CONVERTER_NOT_CONFIGURED");
    assert_eq!(none.message, "Для данного документа не найден ни один подходящий конвертер.");
    let both = fallback_error(&vec![
        ConversionError::new("A", "x".to_string()),
        ConversionError::new("B", "y".to_string()),
    ]);
    assert_eq!(both.message, "Все попытки fallback-конвертации завершились ошибкой: A: x; B: y");
}

#[test]
fn jobs_start_queued_and_end_settled() {
    let mut job = Job::new("job_1".to_string(), "doc".to_string(), "in/doc.txt".to_string(), ProcessingOptions::default());
    assert_eq!(job.status, JobStatus::Queued);
    assert_eq!(job.created_at, job.updated_at);
    assert!(job.error.is_none());
    assert!(job.progress.percent.is_none());
    job.mark_processing();
    assert_eq!(job.status, JobStatus::Processing);
    assert_eq!(job.progress.stage.as_deref(), Some("processing"));
    assert_eq!(job.progress.percent, Some(5));
    job.mark_finished(&JobRunOutcome::Failed("OUTPUT_ASSETS_LIMIT_EXCEEDED".to_string()));
    assert_eq!(job.status, JobStatus::Failed);
    assert_eq!(job.error.as_ref().map(|e| e.code.as_str()), Some("OUTPUT_ASSETS_LIMIT_EXCEEDED"));
    assert_eq!(job.progress.stage.as_deref(), Some("finished"));
    assert_eq!(job.progress.percent, Some(100));
    job.mark_finished(&JobRunOutcome::Finished(ProcessingStatus::Complete));
    assert_eq!(job.status, JobStatus::Completed);
    assert!(job.error.is_some());
    assert_eq!(job.job_id, "job_1");
}

#[test]
fn upload_identifiers_and_errors() {
    let job = new_job_id();
    assert_eq!(job.len(), 36);
    assert!(job.starts_with("job_"));
    assert!(job[4..].chars().all(|c| c.is_ascii_digit() || ('a'..='f').contains(&c)));
    let doc = new_document_id();
    assert!(doc.starts_with("doc_"));
    assert_ne!(new_job_id(), job);
    assert_eq!(multipart_field_error(true).status, 413);
    assert_eq!(multipart_field_error(false).payload.code, "INVALID_MULTIPART");
    assert_eq!(upload_read_error(false).payload.code, "INVALID_UPLOAD");
    assert_eq!(upload_store_error().payload.code, "UPLOAD_STORE_FAILED");
    assert!(job_create_error().payload.recoverable);
}

#[test]
fn marking_headers_twice_changes_nothing() {
    let mut pages: Vec<Page> = (1..=3)
        .map(|n| {
            page(
                n,
                vec![
                    element(&format!("h{}", n), ElementType::Paragraph, "ООО Ромашка", bbox(0, 20, 900, 40)),
                    element(&format!("f{}", n), ElementType::Paragraph, &n.to_string(), bbox(480, 1350, 520, 1380)),
                ],
            )
        })
        .collect();
    let result = detect_repeated_headers_footers(&pages);
    apply_header_footer_marks(&mut pages, &result);
    let once: Vec<(ElementType, Option<String>)> =
        pages.iter().flat_map(|p| p.elements.iter().map(|e| (e.element_type, e.role.clone()))).collect();
    apply_header_footer_marks(&mut pages, &result);
    let twice: Vec<(ElementType, Option<String>)> =
        pages.iter().flat_map(|p| p.elements.iter().map(|e| (e.element_type, e.role.clone()))).collect();
    assert_eq!(once, twice);
}

#[test]
fn excluded_headers_never_reach_the_chunks() {
    let text = "Текст.\n";
    let c = classify_bytes("doc.txt", text.as_bytes(), text.len() as u64);
    let mut m = build_txt_document(&c, text, None, None, None);
    let mut pages = vec![page(
        1,
        vec![
            element("hdr", ElementType::Header, "ООО Ромашка", bbox(0, 10, 900, 30)),
            element("body", ElementType::Paragraph, "тело", bbox(0, 200, 900, 220)),
            element("ftr", ElementType::Footer, "1", bbox(480, 1350, 520, 1380)),
        ],
    )];
    let options = ReadingOrderOptions {
        header_footer_handling: "exclude_from_chunks".to_string(),
        ..ReadingOrderOptions::default()
    };
    assign_layout_aware_reading_order(&mut pages, &[], options);
    assert!(pages[0].elements.iter().filter(|e| e.element_id != "body").all(|e| e.exclude_from_chunks));
    m.pages = pages;
    let chunks = SemanticChunker::default().chunk_document(&m);
    let ids: Vec<String> = chunks.iter().flat_map(|c| c.element_ids.clone()).collect();
    assert_eq!(ids, vec!["body".to_string()]);
}
