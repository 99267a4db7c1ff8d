use document_parser::api::{evaluate_model_registry_ready, ApiError, ModelRegistryProbe};
use document_parser::doctor::{DoctorCheck, DoctorReport, DoctorStatus};
use document_parser::job_worker::{worker_step, WorkerAction, WorkerEvent, WorkerPhase, WorkerState};
use document_parser::jobs::{Job, JobStatus, ProcessingOptions};
use document_parser::layout::types::LayoutRegionType;
use document_parser::model::ProcessingStatus;
use document_parser::upload::{upload_step, UploadAction, UploadEvent, UploadPhase, UploadState};

fn field(name: &str, text: &str) -> UploadEvent {
    UploadEvent::Field { name: name.to_string(), file_name: None, text: text.to_string() }
}

fn error_code(a: &UploadAction) -> Option<(u16, String)> {
    match a {
        UploadAction::Reply(Err(e)) => Some((e.status, e.payload.code.clone())),
        _ => None,
    }
}

#[test]
fn upload_accepted_after_every_step() {
    let (s, a) = upload_step(UploadState::new(), UploadEvent::Start { queue_remaining: 3 });
    assert!(matches!(a, UploadAction::ReadField));
    let (s, a) = upload_step(s, field("extract_tables", "YES"));
    assert!(matches!(a, UploadAction::ReadField));
    assert_eq!(s.options.extract_tables, Some(true));
    let (s, a) = upload_step(
        s,
        UploadEvent::Field { name: "file".to_string(), file_name: Some("a.txt".to_string()), text: String::new() },
    );
    assert!(matches!(a, UploadAction::ReadFileBytes));
    let (s, _) = upload_step(s, UploadEvent::FileBytes(Ok(b"hello".to_vec())));
    let (s, a) = upload_step(s, UploadEvent::EndOfFields);
    assert!(matches!(a, UploadAction::Validate));
    let (s, a) = upload_step(s, UploadEvent::Validated(Ok("a.txt".to_string())));
    let doc = match &a {
        UploadAction::Store { document_id, file_name } => {
            assert_eq!(file_name, "a.txt");
            document_id.clone()
        }
        _ => panic!("expected a store"),
    };
    assert!(doc.starts_with("doc_") && doc.len() == 36);
    assert!(s.job_id.starts_with("job_"));
    let (s, a) = upload_step(s, UploadEvent::Stored(Some("/in/doc/a.txt".to_string())));
    match &a {
        UploadAction::Create(job) => {
            assert_eq!(job.input_path, "/in/doc/a.txt");
            assert_eq!(job.status, JobStatus::Queued);
            assert_eq!(job.options.extract_tables, Some(true));
        }
        _ => panic!("expected a job"),
    }
    let (s, a) = upload_step(s, UploadEvent::Created(true));
    assert!(matches!(a, UploadAction::Enqueue));
    let job_id = s.job_id.clone();
    let (s, a) = upload_step(s, UploadEvent::Enqueued(true));
    assert_eq!(s.phase, UploadPhase::Done);
    match a {
        UploadAction::Reply(Ok(r)) => {
            assert_eq!(r.job_id, job_id);
            assert_eq!(r.document_id, doc);
            assert_eq!(r.message, "Документ принят в обработку.");
        }
        _ => panic!("expected acceptance"),
    }
}

#[test]
fn upload_failures_answer_with_their_errors() {
    let (_, a) = upload_step(UploadState::new(), UploadEvent::Start { queue_remaining: 0 });
    assert_eq!(error_code(&a), Some((429, "QUEUE_FULL".to_string())));

    let (s, _) = upload_step(UploadState::new(), UploadEvent::Start { queue_remaining: 1 });
    let (_, a) = upload_step(s, UploadEvent::MultipartRejected { reason: "Request body too large".to_string() });
    assert_eq!(error_code(&a), Some((413, "DOCUMENT_TOO_LARGE".to_string())));

    let (s, _) = upload_step(UploadState::new(), UploadEvent::Start { queue_remaining: 1 });
    let (_, a) = upload_step(s, UploadEvent::FieldError { payload_too_large: false });
    assert_eq!(error_code(&a), Some((400, "INVALID_MULTIPART".to_string())));

    let (s, _) = upload_step(UploadState::new(), UploadEvent::Start { queue_remaining: 1 });
    let (_, a) = upload_step(s, UploadEvent::EndOfFields);
    assert_eq!(error_code(&a), Some((400, "FILE_FIELD_MISSING".to_string())));

    let (s, _) = upload_step(UploadState::new(), UploadEvent::Start { queue_remaining: 1 });
    let (s, _) = upload_step(
        s,
        UploadEvent::Field { name: "file".to_string(), file_name: Some("x".to_string()), text: String::new() },
    );
    let (_, a) = upload_step(s, UploadEvent::FileBytes(Err(false)));
    assert_eq!(error_code(&a), Some((400, "INVALID_UPLOAD".to_string())));

    let (s, _) = upload_step(UploadState::new(), UploadEvent::Start { queue_remaining: 1 });
    let (s, _) = upload_step(
        s,
        UploadEvent::Field { name: "file".to_string(), file_name: Some("x".to_string()), text: String::new() },
    );
    let (s, _) = upload_step(s, UploadEvent::FileBytes(Ok(vec![1])));
    let (s, _) = upload_step(s, UploadEvent::EndOfFields);
    let (_, a) = upload_step(s, UploadEvent::Validated(Err(ApiError::new(415, "UNSUPPORTED", "no", false))));
    assert_eq!(error_code(&a), Some((415, "UNSUPPORTED".to_string())));

    let (s, _) = upload_step(UploadState::new(), UploadEvent::Start { queue_remaining: 1 });
    let (s, _) = upload_step(
        s,
        UploadEvent::Field { name: "file".to_string(), file_name: Some("x".to_string()), text: String::new() },
    );
    let (s, _) = upload_step(s, UploadEvent::FileBytes(Ok(vec![1])));
    let (s, _) = upload_step(s, UploadEvent::EndOfFields);
    let (s, _) = upload_step(s, UploadEvent::Validated(Ok("x".to_string())));
    let (_, a) = upload_step(s, UploadEvent::Stored(None));
    assert_eq!(error_code(&a), Some((500, "UPLOAD_STORE_FAILED".to_string())));
}

fn worker(max_pages: usize) -> WorkerState {
    WorkerState {
        phase: WorkerPhase::Start,
        job: Job::new("job_1".to_string(), "doc_1".to_string(), "/in/a.txt".to_string(), ProcessingOptions::default()),
        max_pages,
        max_assets_mb: 1,
        status: None,
    }
}

#[test]
fn worker_completes_a_job() {
    let (s, a) = worker_step(worker(10), WorkerEvent::Begin);
    assert!(matches!(a, WorkerAction::UpdateJob));
    assert_eq!(s.job.status, JobStatus::Processing);
    assert_eq!(s.job.progress.percent, Some(5));
    let (s, a) = worker_step(s, WorkerEvent::Marked(true));
    assert!(matches!(a, WorkerAction::RunPipeline));
    let (s, a) = worker_step(s, WorkerEvent::Ran(Ok((2, ProcessingStatus::Partial))));
    assert!(matches!(a, WorkerAction::WriteOutputs));
    let (s, a) = worker_step(s, WorkerEvent::Written(Ok(10)));
    assert!(matches!(a, WorkerAction::UpdateJob));
    assert_eq!(s.job.status, JobStatus::Partial);
    assert_eq!(s.job.progress.percent, Some(100));
    let (s, a) = worker_step(s, WorkerEvent::FinalUpdated(true));
    assert!(matches!(a, WorkerAction::Stop));
    assert_eq!(s.phase, WorkerPhase::Done);
}

#[test]
fn worker_fails_on_limits_and_time() {
    let (s, _) = worker_step(worker(1), WorkerEvent::Begin);
    let (s, _) = worker_step(s, WorkerEvent::Marked(true));
    let (s, _) = worker_step(s, WorkerEvent::Ran(Ok((5, ProcessingStatus::Complete))));
    assert_eq!(s.job.status, JobStatus::Failed);
    assert_eq!(s.job.error.as_ref().map(|e| e.code.as_str()), Some("DOCUMENT_TOO_LARGE"));

    let (s, _) = worker_step(worker(10), WorkerEvent::Begin);
    let (s, _) = worker_step(s, WorkerEvent::Marked(true));
    let (s, _) = worker_step(s, WorkerEvent::Ran(Ok((1, ProcessingStatus::Complete))));
    let (s, _) = worker_step(s, WorkerEvent::Written(Ok(2 * 1024 * 1024)));
    assert_eq!(s.job.error.as_ref().map(|e| e.code.as_str()), Some("OUTPUT_ASSETS_LIMIT_EXCEEDED"));

    let (s, _) = worker_step(worker(10), WorkerEvent::Begin);
    let (s, _) = worker_step(s, WorkerEvent::Marked(true));
    let (s, _) = worker_step(s, WorkerEvent::TimedOut);
    assert_eq!(s.job.error.as_ref().map(|e| e.code.as_str()), Some("PROCESSING_TIMEOUT"));

    let (s, _) = worker_step(worker(10), WorkerEvent::Begin);
    let (s, a) = worker_step(s, WorkerEvent::Marked(false));
    assert!(matches!(a, WorkerAction::Stop));
    assert_eq!(s.job.status, JobStatus::Processing);
}

fn probe(ocr: bool, onnx: bool, models: bool, mock: bool, triton: bool, triton_ready: bool) -> ModelRegistryProbe {
    ModelRegistryProbe {
        pipeline_loaded: true,
        ocr_enabled: ocr,
        onnx_backend: onnx,
        models_exist: models,
        fallback_to_mock: mock,
        triton_wanted: triton,
        triton_ready,
    }
}

#[test]
fn model_registry_readiness() {
    assert!(evaluate_model_registry_ready(&probe(false, true, false, false, true, false)));
    assert!(!evaluate_model_registry_ready(&probe(true, true, false, false, false, false)));
    assert!(evaluate_model_registry_ready(&probe(true, true, false, true, false, false)));
    assert!(!evaluate_model_registry_ready(&probe(true, false, false, false, true, false)));
    assert!(evaluate_model_registry_ready(&probe(true, false, false, false, true, true)));
    let mut none = probe(false, false, false, false, false, false);
    none.pipeline_loaded = false;
    assert!(!evaluate_model_registry_ready(&none));
}

#[test]
fn region_type_names_in_any_case() {
    for t in [LayoutRegionType::Table, LayoutRegionType::Footnote, LayoutRegionType::Watermark] {
        assert_eq!(LayoutRegionType::from_str(&t.as_str().to_ascii_uppercase()), t);
        assert_eq!(LayoutRegionType::from_str(t.as_str()), t);
    }
    assert_eq!(LayoutRegionType::from_str("chart"), LayoutRegionType::Unknown);
    assert_eq!(LayoutRegionType::from_str(" text"), LayoutRegionType::Unknown);
    assert_eq!(LayoutRegionType::from_str(""), LayoutRegionType::Unknown);
}

fn check(status: DoctorStatus) -> DoctorCheck {
    DoctorCheck { code: "X".to_string(), status, message: String::new() }
}

#[test]
fn doctor_status_ignores_order_and_never_falls() {
    let a = DoctorReport {
        generated_at: String::new(),
        checks: vec![check(DoctorStatus::Warn), check(DoctorStatus::Pass)],
    };
    let b = DoctorReport {
        generated_at: String::new(),
        checks: vec![check(DoctorStatus::Pass), check(DoctorStatus::Warn)],
    };
    assert_eq!(a.overall_status(), b.overall_status());
    let more = DoctorReport {
        generated_at: String::new(),
        checks: vec![check(DoctorStatus::Warn), check(DoctorStatus::Pass), check(DoctorStatus::Error), check(DoctorStatus::Pass)],
    };
    assert_eq!(more.overall_status(), DoctorStatus::Error);
}
