//! What the HTTP API answers: its responses, its errors and the decisions behind
//! them. Serving requests is the caller's part.

use vstd::prelude::*;
use crate::jobs::{ApiErrorPayload, Job, JobProgress, JobStatus};
use crate::json::{JsonNumber, JsonValue, json_get, json_str};
use crate::text::{chars_of, lower_chars, lower_seq, seq_contains, contains_chars, to_owned_string};

verus! {

/// An error answer: the HTTP status and what the client reads.
#[derive(Debug)]
pub struct ApiError {
    pub status: u16,
    pub payload: ApiErrorPayload,
}

impl ApiError {
    pub fn new(status: u16, code: &str, message: &str, recoverable: bool) -> (e: Self)
        ensures
            e.status == status,
            e.payload.code@ == code@,
            e.payload.message@ == message@,
            e.payload.recoverable == recoverable,
            e.payload.details@.len() == 0,
    {
        ApiError { status, payload: ApiErrorPayload::new(code, message, recoverable) }
    }

    /// Adds a detail under `key`, replacing one of the same key.
    pub fn with_detail(self, key: &str, value: JsonValue) -> (e: Self)
        ensures
            e.status == self.status,
            e.payload.code == self.payload.code,
            e.payload.message == self.payload.message,
            e.payload.recoverable == self.payload.recoverable,
            crate::json::member(e.payload.details@, key@) == Some(value),
    {
        let mut out = self;
        let n = out.payload.details.len();
        let i: usize = match detail_position(&out.payload.details, key) {
            Some(p) => p,
            None => n,
        };
        let ghost before = out.payload.details@;
        if i < n {
            let k = out.payload.details[i].0.clone();
            out.payload.details.set(i, (k, value));
        } else {
            out.payload.details.push((to_owned_string(key), value));
        }
        proof {
            if i == n {
                assert(out.payload.details@.drop_last() =~= before);
            } else {
                assert(out.payload.details@ =~= before.update(
                    i as int,
                    (before[i as int].0, out.payload.details@[i as int].1),
                ));
            }
            lemma_member_after_first(before, out.payload.details@, key@, i as int);
        }
        out
    }
}

fn detail_position(details: &Vec<(String, JsonValue)>, key: &str) -> (r: Option<usize>)
    ensures
        match r {
            Some(i) => i < details@.len() && details@[i as int].0@ == key@ && forall|k: int|
                0 <= k < i ==> (#[trigger] details@[k]).0@ != key@,
            None => forall|k: int| 0 <= k < details@.len() ==> (#[trigger] details@[k]).0@ != key@,
        },
{
    let mut i: usize = 0;
    while i < details.len()
        invariant
            i <= details@.len(),
            forall|k: int| 0 <= k < i ==> (#[trigger] details@[k]).0@ != key@,
        decreases details@.len() - i,
    {
        if crate::classifier::chars_eq(chars_of(details[i].0.as_str()).as_slice(), key) {
            return Some(i);
        }
        i = i + 1;
    }
    None
}

proof fn lemma_member_after_first(
    before: Seq<(String, JsonValue)>,
    after: Seq<(String, JsonValue)>,
    key: Seq<char>,
    i: int,
)
    requires
        0 <= i <= before.len(),
        forall|k: int| 0 <= k < i ==> (#[trigger] before[k]).0@ != key,
        i < before.len() ==> before[i].0@ == key && after == before.update(i, (before[i].0, after[i].1)),
        i == before.len() ==> after.len() == before.len() + 1 && after.drop_last() == before
            && after.last().0@ == key,
    ensures
        crate::json::member(after, key) == Some(after[i].1),
    decreases i,
{
    if i > 0 {
        assert(after[0] == before[0]);
        let b2 = before.drop_first();
        let a2 = after.drop_first();
        if i < before.len() {
            assert(a2 =~= b2.update(i - 1, (b2[i - 1].0, a2[i - 1].1)));
        } else {
            assert(a2.drop_last() =~= b2);
        }
        assert forall|k: int| 0 <= k < i - 1 implies (#[trigger] b2[k]).0@ != key by {
            assert(b2[k] == before[k + 1]);
        }
        lemma_member_after_first(b2, a2, key, i - 1);
    }
}

#[derive(Debug)]
pub struct UploadAcceptedResponse {
    pub job_id: String,
    pub document_id: String,
    pub status: JobStatus,
    pub message: String,
}

#[derive(Debug)]
pub struct JobStatusResponse {
    pub job_id: String,
    pub document_id: String,
    pub status: JobStatus,
    pub progress: JobProgress,
    pub created_at: String,
    pub updated_at: String,
    pub error: Option<ApiErrorPayload>,
}

#[derive(Debug)]
pub struct HealthResponse {
    pub status: String,
}

#[derive(Debug)]
pub struct ReadyResponse {
    pub status: String,
    pub queue_capacity_remaining: usize,
    pub workers: usize,
    pub message: Option<String>,
}

#[derive(Debug)]
pub struct SystemPerformanceResponse {
    pub provider: String,
    pub ocr_backend: String,
    pub batching_enabled: bool,
    pub warmup_completed: bool,
}

/// Who asked for what: the identifier given to a request and its path.
#[derive(Debug)]
pub struct RequestContext {
    pub request_id: String,
    pub path: String,
}

/// The liveness answer.
pub fn healthz() -> (r: HealthResponse)
    ensures
        r.status@ == "ok"@,
{
    HealthResponse { status: to_owned_string("ok") }
}

/// What readiness depends on.
#[derive(Debug)]
pub struct Readiness {
    pub config_valid: bool,
    pub storage_ready: bool,
    pub model_registry_ready: bool,
    pub queue_closed: bool,
    pub queue_remaining: usize,
    pub workers: usize,
}

/// The service takes work: valid configuration, writable storage, a ready model
/// registry and an open queue with room.
pub open spec fn ready(s: Readiness) -> bool {
    s.config_valid && s.storage_ready && s.model_registry_ready && !s.queue_closed && s.queue_remaining
        > 0
}

pub fn is_ready(s: &Readiness) -> (r: bool)
    ensures
        r == ready(*s),
{
    s.config_valid && s.storage_ready && s.model_registry_ready && !s.queue_closed && s.queue_remaining
        > 0
}

/// The readiness answer's status and message.
pub open spec fn readiness_answer(s: Readiness) -> (Seq<char>, Option<Seq<char>>) {
    if !s.config_valid {
        ("failed"@, Some("Конфигурация сервиса невалидна."@))
    } else if !s.storage_ready {
        ("failed"@, Some("Хранилище недоступно для записи."@))
    } else if !s.model_registry_ready {
        ("degraded"@, Some("Model registry не готов к обработке запросов."@))
    } else if s.queue_closed {
        ("failed"@, Some("Очередь обработки недоступна."@))
    } else if s.queue_remaining == 0 {
        ("degraded"@, Some("Очередь обработки заполнена."@))
    } else {
        ("ok"@, None)
    }
}

fn ready_answer(status: &str, remaining: usize, workers: usize, message: &str) -> (r: ReadyResponse)
    ensures
        r.status@ == status@,
        r.queue_capacity_remaining == remaining,
        r.workers == workers,
        r.message.is_some() && r.message.unwrap()@ == message@,
{
    ReadyResponse {
        status: to_owned_string(status),
        queue_capacity_remaining: remaining,
        workers,
        message: Some(to_owned_string(message)),
    }
}

/// The readiness answer: the first thing that is not ready decides it.
pub fn ready_response(s: &Readiness) -> (r: ReadyResponse)
    ensures
        r.status@ == readiness_answer(*s).0,
        match readiness_answer(*s).1 {
            Some(m) => r.message.is_some() && r.message.unwrap()@ == m,
            None => r.message.is_none(),
        },
        r.workers == s.workers,
        r.queue_capacity_remaining == if s.config_valid && s.storage_ready && s.model_registry_ready
            && s.queue_closed {
            0
        } else {
            s.queue_remaining
        },
{
    if !s.config_valid {
        return ready_answer("failed", s.queue_remaining, s.workers, "Конфигурация сервиса невалидна.");
    }
    if !s.storage_ready {
        return ready_answer("failed", s.queue_remaining, s.workers, "Хранилище недоступно для записи.");
    }
    if !s.model_registry_ready {
        return ready_answer(
            "degraded",
            s.queue_remaining,
            s.workers,
            "Model registry не готов к обработке запросов.",
        );
    }
    if s.queue_closed {
        return ready_answer("failed", 0, s.workers, "Очередь обработки недоступна.");
    }
    if s.queue_remaining == 0 {
        return ready_answer("degraded", 0, s.workers, "Очередь обработки заполнена.");
    }
    ReadyResponse {
        status: to_owned_string("ok"),
        queue_capacity_remaining: s.queue_remaining,
        workers: s.workers,
        message: None,
    }
}

/// The readiness answer says `ok` exactly when the service is ready.
pub proof fn law_ready_iff_ok(s: Readiness)
    ensures
        (readiness_answer(s).0 == "ok"@) == ready(s),
{
    reveal_strlit("ok");
    reveal_strlit("failed");
    reveal_strlit("degraded");
    assert("failed"@ != "ok"@) by {
        assert("failed"@.len() != "ok"@.len());
    }
    assert("degraded"@ != "ok"@) by {
        assert("degraded"@.len() != "ok"@.len());
    }
}

/// `e` is the error answer with this status, code, message and recoverability,
/// and no details.
pub open spec fn api_error_is(e: ApiError, status: u16, code: Seq<char>, message: Seq<char>, recoverable: bool) -> bool {
    &&& e.status == status
    &&& e.payload.code@ == code
    &&& e.payload.message@ == message
    &&& e.payload.recoverable == recoverable
    &&& e.payload.details@.len() == 0
}

/// The message of a document over the size limit.
pub open spec fn too_large_message() -> Seq<char> {
    "Размер документа превышает допустимый лимит."@
}

/// An upload is refused while the queue has no room.
pub fn check_queue_room(queue_remaining: usize) -> (r: Result<(), ApiError>)
    ensures
        r.is_ok() == (queue_remaining > 0),
        r matches Err(e) ==> api_error_is(e, 429, "QUEUE_FULL"@, "Очередь обработки заполнена."@, true),
{
    if queue_remaining == 0 {
        return Err(ApiError::new(429, "QUEUE_FULL", "Очередь обработки заполнена.", true));
    }
    Ok(())
}

/// A rejected multipart body whose reason mentions a size limit.
pub open spec fn mentions_size(reason: Seq<char>) -> bool {
    let l = lower_seq(reason);
    seq_contains(l, "too large"@) || seq_contains(l, "body"@) || seq_contains(l, "limit"@)
}

/// The error for a multipart body that could not be read, by the reason given.
pub fn multipart_error(reason: &str) -> (e: ApiError)
    ensures
        mentions_size(reason@) ==> api_error_is(e, 413, "DOCUMENT_TOO_LARGE"@, too_large_message(), false),
        !mentions_size(reason@) ==> api_error_is(e, 400, "INVALID_MULTIPART"@, "Некорректный multipart-запрос."@, false),
{
    let l = lower_chars(chars_of(reason).as_slice());
    let s = l.as_slice();
    if contains_chars(s, chars_of("too large").as_slice()) || contains_chars(
        s,
        chars_of("body").as_slice(),
    ) || contains_chars(s, chars_of("limit").as_slice()) {
        ApiError::new(413, "DOCUMENT_TOO_LARGE", "Размер документа превышает допустимый лимит.", false)
    } else {
        ApiError::new(400, "INVALID_MULTIPART", "Некорректный multipart-запрос.", false)
    }
}

/// The error when a part of the multipart body could not be read: too large when
/// the body limit was hit, else a malformed request.
pub fn multipart_field_error(payload_too_large: bool) -> (e: ApiError)
    ensures
        payload_too_large ==> api_error_is(e, 413, "DOCUMENT_TOO_LARGE"@, too_large_message(), false),
        !payload_too_large ==> api_error_is(e, 400, "INVALID_MULTIPART"@, "Некорректный multipart-запрос."@, false),
{
    if payload_too_large {
        ApiError::new(413, "DOCUMENT_TOO_LARGE", "Размер документа превышает допустимый лимит.", false)
    } else {
        ApiError::new(400, "INVALID_MULTIPART", "Некорректный multipart-запрос.", false)
    }
}

/// The error when the uploaded file's bytes could not be read: too large when the
/// body limit was hit, else an unreadable upload.
pub fn upload_read_error(payload_too_large: bool) -> (e: ApiError)
    ensures
        payload_too_large ==> api_error_is(e, 413, "DOCUMENT_TOO_LARGE"@, too_large_message(), false),
        !payload_too_large ==> api_error_is(e, 400, "INVALID_UPLOAD"@, "Не удалось прочитать загруженный файл."@, false),
{
    if payload_too_large {
        ApiError::new(413, "DOCUMENT_TOO_LARGE", "Размер документа превышает допустимый лимит.", false)
    } else {
        ApiError::new(400, "INVALID_UPLOAD", "Не удалось прочитать загруженный файл.", false)
    }
}

/// The error when the upload could not be stored.
pub fn upload_store_error() -> (e: ApiError)
    ensures
        api_error_is(e, 500, "UPLOAD_STORE_FAILED"@, "Не удалось сохранить загруженный файл."@, true),
{
    ApiError::new(500, "UPLOAD_STORE_FAILED", "Не удалось сохранить загруженный файл.", true)
}

/// The error when the job for an upload could not be recorded.
pub fn job_create_error() -> (e: ApiError)
    ensures
        api_error_is(e, 500, "JOB_CREATE_FAILED"@, "Не удалось создать задачу обработки."@, true),
{
    ApiError::new(500, "JOB_CREATE_FAILED", "Не удалось создать задачу обработки.", true)
}

pub open spec fn is_lower_hex(c: char) -> bool {
    ('0' <= c && c <= '9') || ('a' <= c && c <= 'f')
}

/// Calls uuid's `Uuid::new_v4()` and writes it in its `simple` form, which uuid
/// documents as 32 lowercase hexadecimal digits; which digits come out is chance.
#[verifier::external_body]
fn uuid_v4_simple() -> (r: String)
    ensures
        r@.len() == 32,
        forall|i: int| 0 <= i < 32 ==> is_lower_hex(#[trigger] r@[i]),
{
    uuid::Uuid::new_v4().simple().to_string()
}

fn prefixed_uuid(prefix: &str) -> (r: String)
    ensures
        r@.len() == prefix@.len() + 32,
        r@.take(prefix@.len() as int) == prefix@,
        forall|i: int| prefix@.len() <= i < r@.len() ==> is_lower_hex(#[trigger] r@[i]),
{
    let id = uuid_v4_simple();
    let mut v: Vec<char> = Vec::new();
    crate::text::push_str_chars(&mut v, prefix);
    crate::text::push_str_chars(&mut v, id.as_str());
    assert(v@.take(prefix@.len() as int) =~= prefix@);
    assert forall|i: int| prefix@.len() <= i < v@.len() implies is_lower_hex(#[trigger] v@[i]) by {
        assert(v@[i] == id@[i - prefix@.len()]);
    }
    crate::text::string_from_chars(v.as_slice())
}

/// A fresh job identifier: `job_` and 32 random lowercase hexadecimal digits.
pub fn new_job_id() -> (r: String)
    ensures
        r@.len() == 36,
        r@.take(4) == "job_"@,
        forall|i: int| 4 <= i < 36 ==> is_lower_hex(#[trigger] r@[i]),
{
    proof {
        reveal_strlit("job_");
    }
    prefixed_uuid("job_")
}

/// A fresh document identifier: `doc_` and 32 random lowercase hexadecimal digits.
pub fn new_document_id() -> (r: String)
    ensures
        r@.len() == 36,
        r@.take(4) == "doc_"@,
        forall|i: int| 4 <= i < 36 ==> is_lower_hex(#[trigger] r@[i]),
{
    proof {
        reveal_strlit("doc_");
    }
    prefixed_uuid("doc_")
}

/// The answer to a job status request: the job as it stands.
pub fn job_status_response(job: Job) -> (r: JobStatusResponse)
    ensures
        r.job_id == job.job_id,
        r.document_id == job.document_id,
        r.status == job.status,
        r.progress == job.progress,
        r.created_at == job.created_at,
        r.updated_at == job.updated_at,
        r.error == job.error,
{
    JobStatusResponse {
        job_id: job.job_id,
        document_id: job.document_id,
        status: job.status,
        progress: job.progress,
        created_at: job.created_at,
        updated_at: job.updated_at,
        error: job.error,
    }
}

/// The error when the job registry could not be asked.
pub fn job_lookup_error() -> (e: ApiError)
    ensures
        api_error_is(e, 500, "JOB_LOOKUP_FAILED"@, "Не удалось получить статус задачи."@, true),
{
    ApiError::new(500, "JOB_LOOKUP_FAILED", "Не удалось получить статус задачи.", true)
}

/// The error when no job has the identifier asked for.
pub fn job_not_found_error() -> (e: ApiError)
    ensures
        api_error_is(e, 404, "JOB_NOT_FOUND"@, "Задача не найдена."@, false),
{
    ApiError::new(404, "JOB_NOT_FOUND", "Задача не найдена.", false)
}

/// The error when the upload form has no `file` field.
pub fn missing_file_error() -> (e: ApiError)
    ensures
        api_error_is(e, 400, "FILE_FIELD_MISSING"@, "Не найден обязательный multipart field 'file'."@, false),
{
    ApiError::new(400, "FILE_FIELD_MISSING", "Не найден обязательный multipart field 'file'.", false)
}

/// The answer to an accepted upload.
pub fn upload_accepted(job_id: String, document_id: String) -> (r: UploadAcceptedResponse)
    ensures
        r.job_id@ == job_id@,
        r.document_id@ == document_id@,
        r.status == JobStatus::Queued,
        r.message@ == "Документ принят в обработку."@,
{
    UploadAcceptedResponse {
        job_id,
        document_id,
        status: JobStatus::Queued,
        message: to_owned_string("Документ принят в обработку."),
    }
}

/// The error when a document's model is not there: still in the works when its
/// job is queued or running, unknown otherwise.
pub fn model_missing_error(job_status: Option<JobStatus>) -> (e: ApiError)
    ensures
        (job_status == Some(JobStatus::Queued) || job_status == Some(JobStatus::Processing)) ==> api_error_is(
            e,
            409,
            "DOCUMENT_NOT_READY"@,
            "Документ ещё обрабатывается."@,
            true,
        ),
        !(job_status == Some(JobStatus::Queued) || job_status == Some(JobStatus::Processing)) ==> api_error_is(
            e,
            404,
            "DOCUMENT_NOT_FOUND"@,
            "Документ не найден."@,
            false,
        ),
{
    match job_status {
        Some(JobStatus::Queued) | Some(JobStatus::Processing) => ApiError::new(
            409,
            "DOCUMENT_NOT_READY",
            "Документ ещё обрабатывается.",
            true,
        ),
        _ => ApiError::new(404, "DOCUMENT_NOT_FOUND", "Документ не найден.", false),
    }
}

/// The position of the asset named `asset_id` among a model's assets.
pub open spec fn asset_position(assets: Seq<JsonValue>, asset_id: Seq<char>) -> Option<int>
    decreases assets.len(),
{
    if assets.len() == 0 {
        None
    } else if json_str(json_get(assets[0], "asset_id"@)) == Some(asset_id) {
        Some(0)
    } else {
        match asset_position(assets.drop_first(), asset_id) {
            Some(i) => Some(i + 1),
            None => None,
        }
    }
}

/// Finds the asset named `asset_id` among a model's assets.
pub fn find_asset(assets: &Vec<JsonValue>, asset_id: &str) -> (r: Option<usize>)
    ensures
        match asset_position(assets@, asset_id@) {
            Some(i) => r == Some(i as usize),
            None => r.is_none(),
        },
{
    let mut i: usize = 0;
    assert(assets@.skip(0) =~= assets@);
    while i < assets.len()
        invariant
            i <= assets@.len(),
            asset_position(assets@, asset_id@) == match asset_position(assets@.skip(i as int), asset_id@) {
                Some(k) => Some(k + i),
                None => None,
            },
        decreases assets@.len() - i,
    {
        proof {
            let rest = assets@.skip(i as int);
            assert(rest[0] == assets@[i as int]);
            assert(rest.drop_first() =~= assets@.skip(i + 1));
        }
        let found = match assets[i].get("asset_id") {
            Some(v) => match v.as_str() {
                Some(s) => crate::classifier::chars_eq(chars_of(s).as_slice(), asset_id),
                None => false,
            },
            None => false,
        };
        if found {
            return Some(i);
        }
        i = i + 1;
    }
    None
}

/// The body of a plain error answer: `{"error": {code, message, recoverable: false, details: {}}}`.
pub fn api_error(code: &str, message: &str) -> (v: JsonValue)
    ensures
        match v {
            JsonValue::Object(top) => top@.len() == 1 && top@[0].0@ == "error"@ && match top@[0].1 {
                JsonValue::Object(e) => e@.len() == 4 && e@[0].0@ == "code"@ && e@[0].1 == JsonValue::Str(
                    e@[0].1->Str_0,
                ) && (e@[0].1->Str_0)@ == code@ && e@[1].0@ == "message"@ && (e@[1].1->Str_0)@
                    == message@ && e@[1].1 is Str && e@[2].0@ == "recoverable"@ && e@[2].1
                    == JsonValue::Bool(false) && e@[3].0@ == "details"@ && e@[3].1 is Object && (
                e@[3].1->Object_0)@.len() == 0,
                _ => false,
            },
            _ => false,
        },
{
    let mut e: Vec<(String, JsonValue)> = Vec::new();
    e.push((to_owned_string("code"), JsonValue::Str(to_owned_string(code))));
    e.push((to_owned_string("message"), JsonValue::Str(to_owned_string(message))));
    e.push((to_owned_string("recoverable"), JsonValue::Bool(false)));
    e.push((to_owned_string("details"), JsonValue::Object(Vec::new())));
    let mut top: Vec<(String, JsonValue)> = Vec::new();
    top.push((to_owned_string("error"), JsonValue::Object(e)));
    JsonValue::Object(top)
}


/// What the readiness of the models rests on, as the caller found it: whether a
/// pipeline configuration was loaded; whether OCR is on and runs on ONNX models;
/// whether those models' files are there and a mock may stand in for them; whether
/// Triton is to be used (see `doctor::triton_wanted`) and answered.
pub struct ModelRegistryProbe {
    pub pipeline_loaded: bool,
    pub ocr_enabled: bool,
    pub onnx_backend: bool,
    pub models_exist: bool,
    pub fallback_to_mock: bool,
    pub triton_wanted: bool,
    pub triton_ready: bool,
}

/// The models are ready: a configuration is loaded, and either OCR is off, or its
/// ONNX models are there (or a mock may stand in) and Triton, where it is used,
/// answered.
pub open spec fn models_ready(p: ModelRegistryProbe) -> bool {
    &&& p.pipeline_loaded
    &&& p.ocr_enabled ==> {
        &&& p.onnx_backend ==> p.models_exist || p.fallback_to_mock
        &&& p.triton_wanted ==> p.triton_ready
    }
}

/// Whether the models are ready (see [`models_ready`]).
pub fn evaluate_model_registry_ready(p: &ModelRegistryProbe) -> (r: bool)
    ensures
        r == models_ready(*p),
{
    if !p.pipeline_loaded {
        return false;
    }
    if !p.ocr_enabled {
        return true;
    }
    if p.onnx_backend && !p.models_exist && !p.fallback_to_mock {
        return false;
    }
    if p.triton_wanted && !p.triton_ready {
        return false;
    }
    true
}

} // verus!
