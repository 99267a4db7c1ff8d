use document_parser::api::{api_error, find_asset, job_lookup_error, job_not_found_error, ApiError};
use document_parser::assets::asset_folders;
use document_parser::converters::libreoffice::LibreOfficeConverter;
use document_parser::converters::conversion_pipeline::{fallback_error, record_failed_attempt};
use document_parser::converters::external_process::{
    output_too_large_error, oversized_output, ExternalCommand, OutputStream,
};
use document_parser::converters::sandbox::sandbox_sizes_ok;
use document_parser::converters::traits::{ConversionError, ConversionTarget, ExtractionContext};
use document_parser::assets::LocalAssetStore;
use document_parser::config::ServiceProfile;
use document_parser::jobs::JobQueuePolicy;
use document_parser::extractors::{doc_error, doc_warning};
use document_parser::formulas::omml_latex::omml_to_latex;
use document_parser::json::JsonValue;
use document_parser::layout::resolve_layout_options;
use document_parser::layout::types::{
    layout_region_to_element_placeholder, LayoutRegion, LayoutRegionType, LayoutSource,
};
use document_parser::model::{BBox, ElementType};
use document_parser::text::str_ends_with;

fn obj(members: Vec<(&str, JsonValue)>) -> JsonValue {
    JsonValue::Object(members.into_iter().map(|(k, v)| (k.to_string(), v)).collect())
}

#[test]
fn job_errors_have_fixed_status_and_code() {
    let e = job_lookup_error();
    assert_eq!(e.status, 500);
    assert_eq!(e.payload.code, "JOB_LOOKUP_FAILED");
    assert!(e.payload.recoverable);
    let n = job_not_found_error();
    assert_eq!(n.status, 404);
    assert_eq!(n.payload.code, "JOB_NOT_FOUND");
    assert_eq!(n.payload.message, "Задача не найдена.");
    assert!(!n.payload.recoverable);
}

#[test]
fn error_detail_is_added_once() {
    let e = ApiError::new(400, "BAD", "bad input", false)
        .with_detail("field", JsonValue::Str("file".to_string()))
        .with_detail("field", JsonValue::Str("name".to_string()));
    assert_eq!(e.status, 400);
    assert_eq!(e.payload.details.len(), 1);
    assert_eq!(e.payload.details[0].0, "field");
    assert!(matches!(&e.payload.details[0].1, JsonValue::Str(s) if s == "name"));
}

#[test]
fn asset_lookup_by_id() {
    let assets = vec![
        obj(vec![("asset_id", JsonValue::Str("a".to_string()))]),
        obj(vec![("path", JsonValue::Str("x".to_string()))]),
        obj(vec![("asset_id", JsonValue::Str("b".to_string()))]),
    ];
    assert_eq!(find_asset(&assets, "b"), Some(2));
    assert_eq!(find_asset(&assets, "a"), Some(0));
    assert_eq!(find_asset(&assets, "c"), None);
}

#[test]
fn api_error_body_shape() {
    let v = api_error("NOT_FOUND", "missing");
    match v {
        JsonValue::Object(top) => {
            assert_eq!(top.len(), 1);
            assert_eq!(top[0].0, "error");
            match &top[0].1 {
                JsonValue::Object(e) => {
                    assert_eq!(e.len(), 4);
                    assert!(matches!(&e[0].1, JsonValue::Str(s) if s == "NOT_FOUND"));
                    assert!(matches!(&e[1].1, JsonValue::Str(s) if s == "missing"));
                    assert!(matches!(&e[2].1, JsonValue::Bool(false)));
                    assert_eq!(e[3].0, "details");
                }
                _ => panic!("error is not an object"),
            }
        }
        _ => panic!("body is not an object"),
    }
}

#[test]
fn omml_text_outside_tags() {
    assert_eq!(omml_to_latex("<m:oMath><m:r><m:t>x+1</m:t></m:r></m:oMath>").as_deref(), Some("x+1"));
    assert_eq!(omml_to_latex("<m:oMath>  </m:oMath>"), None);
}

#[test]
fn libreoffice_output_is_picked_by_extension() {
    let files = vec!["log.txt".to_string(), "Report.PDF".to_string(), "other.pdf".to_string()];
    assert_eq!(LibreOfficeConverter::pick_output(&files, ConversionTarget::Pdf).ok(), Some(1));
    let none = LibreOfficeConverter::pick_output(&vec!["a.doc".to_string()], ConversionTarget::Pdf);
    assert_eq!(none.err().map(|e| e.code), Some("LIBREOFFICE_OUTPUT_MISSING".to_string()));
}

#[test]
fn small_helpers() {
    assert_eq!(asset_folders(), vec!["renders", "images", "tables", "crops", "formulas", "debug"]);
    assert!(str_ends_with("report.docx", ".docx"));
    assert!(!str_ends_with("x", "long suffix"));
    let w = doc_warning("CODE_W", "careful".to_string());
    assert_eq!((w.severity.as_str(), w.scope.as_str(), w.message.as_str()), ("warning", "document", "careful"));
    let e = doc_error("CODE_E", "broken".to_string());
    assert_eq!(e.severity, "error");
    assert!(e.recoverable);
}

#[test]
fn table_region_placeholder() {
    let region = LayoutRegion {
        region_id: "r1".to_string(),
        page_number: 3,
        region_type: LayoutRegionType::Table,
        bbox: BBox { x0: 10, y0: 20, x1: 300, y1: 400 },
        polygon: None,
        confidence_permille: 800,
        reading_order: Some(2),
        source: LayoutSource::Heuristic,
    };
    let e = layout_region_to_element_placeholder(&region);
    assert_eq!(e.element_id, "p3_layout_r1");
    assert_eq!(e.element_type, ElementType::Table);
    assert_eq!(e.role.as_deref(), Some("layout_table_placeholder"));
    assert_eq!(e.text.as_deref(), Some("[Обнаружена область таблицы макета]"));
    assert_eq!(e.reading_order, Some(2));
    assert_eq!(e.bbox, Some(BBox { x0: 10, y0: 20, x1: 300, y1: 400 }));
}

#[test]
fn layout_defaults_without_config() {
    let o = resolve_layout_options(None, None);
    assert!(o.enabled && o.detect_headers_footers && o.detect_tables);
    assert!(!o.save_debug_artifacts);
    assert_eq!(o.reading_order.strategy, "layout_aware");
    assert_eq!(o.reading_order.y_tolerance_permille, 20);
}

fn command(max_out: usize, max_err: usize) -> ExternalCommand {
    ExternalCommand {
        binary: "pandoc".to_string(),
        args: vec![],
        working_dir: "/tmp".to_string(),
        timeout_secs: 10,
        env_clear: false,
        env: vec![],
        max_stdout_bytes: max_out,
        max_stderr_bytes: max_err,
    }
}

#[test]
fn output_size_limits() {
    let cmd = command(10, 5);
    assert_eq!(oversized_output(&cmd, 10, 5), None);
    assert_eq!(oversized_output(&cmd, 11, 9), Some(OutputStream::Stdout));
    assert_eq!(oversized_output(&cmd, 3, 6), Some(OutputStream::Stderr));
    let e = output_too_large_error(OutputStream::Stderr, "10.00");
    assert_eq!(e.code, "EXTERNAL_OUTPUT_TOO_LARGE");
    assert_eq!(e.message, "Stderr внешней команды превысил лимит 10.00 MB и был обрезан.");
    assert!(e.recoverable);
}

#[test]
fn failed_attempts_keep_the_whole_error() {
    let mut ctx = ExtractionContext::default();
    let mut err = ConversionError::new("PANDOC_FAILED", "boom".to_string());
    err.recoverable = false;
    record_failed_attempt(&mut ctx, "pandoc", ConversionTarget::Html, &err);
    assert_eq!(ctx.warnings.len(), 1);
    assert_eq!(ctx.warnings[0].code, "PANDOC_FAILED");
    assert!(!ctx.warnings[0].recoverable);
    assert_eq!(ctx.stage_records[0].name, "conversion_attempt_failed");
    let f = fallback_error(&vec![]);
    assert_eq!(f.code, "CONVERTER_NOT_CONFIGURED");
    assert!(f.recoverable);
}

#[test]
fn libreoffice_plans_binary_then_format() {
    let lo = LibreOfficeConverter::from_pipeline_config(None);
    let ok = lo.plan_conversion(Some("/usr/bin/soffice".to_string()), ConversionTarget::Pdf).unwrap();
    assert_eq!(ok, ("/usr/bin/soffice".to_string(), "pdf"));
    let md = lo.plan_conversion(Some("/usr/bin/soffice".to_string()), ConversionTarget::Markdown).unwrap_err();
    assert_eq!(md.code, "LIBREOFFICE_CONVERSION_FAILED");
    assert_eq!(md.message, "LibreOffice не поддерживает цель конвертации 'markdown'.");
    let missing = lo.plan_conversion(None, ConversionTarget::Text).unwrap_err();
    assert_eq!(missing.code, "LIBREOFFICE_NOT_AVAILABLE");
}

#[test]
fn profile_paths_join_like_paths() {
    assert_eq!(ServiceProfile::default_profile_path("api"), "configs/profiles/api.jsonc");
    assert_eq!(ServiceProfile::default_profile_path("/etc/dp/custom"), "/etc/dp/custom.jsonc");
    assert!(sandbox_sizes_ok(None));
}

#[test]
fn asset_layout_folders() {
    let store = LocalAssetStore::new("out".to_string());
    let paths = store.asset_folder_paths("doc_1");
    assert_eq!(paths[0], "out/doc_1/assets/renders");
    assert_eq!(paths[5], "out/doc_1/assets/debug");
    assert_eq!(paths.len(), 6);
}

#[test]
fn queue_policy_decisions() {
    let q = JobQueuePolicy::new(0, 0);
    assert_eq!((q.channel_capacity, q.workers), (1, 1));
    assert_eq!(q.accept_job(), Err("queue is full".to_string()));
    assert_eq!(q.remaining_capacity(7), 0);
    let r = JobQueuePolicy::new(8, 3);
    assert!(r.accept_job().is_ok());
    assert_eq!(r.remaining_capacity(7), 7);
}
