//! Accepting an uploaded document: the decisions of the upload endpoint, one step
//! at a time. Reading the request, validating and storing the file, recording the
//! job and queueing it are the caller's part; after each it hands the outcome back
//! as an event and is told what to do next.

use vstd::prelude::*;
use crate::api::{
    api_error_is, check_queue_room, job_create_error, mentions_size, missing_file_error, multipart_error,
    multipart_field_error, new_document_id, new_job_id, too_large_message, upload_accepted, upload_read_error,
    upload_store_error, is_lower_hex, ApiError, UploadAcceptedResponse,
};
use crate::jobs::{applied_field, apply_form_field, Job, JobStatus, ProcessingOptions};

verus! {

/// Where an upload stands: what it waits for next.
#[derive(Clone, Copy, Debug, PartialEq, Eq, Structural)]
pub enum UploadPhase {
    /// Nothing has been looked at yet.
    Start,
    /// The next field of the form (or its end).
    AwaitField,
    /// The bytes of the `file` field.
    AwaitFileBytes,
    /// The verdict on the file's name and bytes.
    AwaitValidation,
    /// The outcome of storing the file.
    AwaitStore,
    /// The outcome of recording the job.
    AwaitCreate,
    /// The outcome of queueing the job.
    AwaitEnqueue,
    /// The request has been answered.
    Done,
}

/// An upload in progress: its phase, the file's name and bytes once read, the
/// options read from the form, and the identifiers drawn for the job and document.
pub struct UploadState {
    pub phase: UploadPhase,
    pub file_name: Option<String>,
    pub file_bytes: Option<Vec<u8>>,
    pub options: ProcessingOptions,
    pub job_id: String,
    pub document_id: String,
}

/// What the caller saw.
pub enum UploadEvent {
    /// The request came in while the queue had this much room.
    Start { queue_remaining: usize },
    /// The multipart body was rejected, for this reason.
    MultipartRejected { reason: String },
    /// The next field could not be read; `payload_too_large` where the body limit was hit.
    FieldError { payload_too_large: bool },
    /// A field: its name, the file name it carries, and (for a field other than
    /// `file`) its text.
    Field { name: String, file_name: Option<String>, text: String },
    /// The bytes of the `file` field, or whether reading them hit the body limit.
    FileBytes(Result<Vec<u8>, bool>),
    /// The form has no more fields.
    EndOfFields,
    /// The verdict on the file: the safe file name to store it under, or the refusal.
    Validated(Result<String, ApiError>),
    /// Where the file was stored, or nothing where storing failed.
    Stored(Option<String>),
    /// Whether the job was recorded.
    Created(bool),
    /// Whether the job was queued.
    Enqueued(bool),
}

/// What the caller is to do next.
pub enum UploadAction {
    /// Read the next field of the form.
    ReadField,
    /// Read the bytes of the `file` field.
    ReadFileBytes,
    /// Validate the file name and bytes held in the state.
    Validate,
    /// Store the bytes held in the state for this document under this file name.
    Store { document_id: String, file_name: String },
    /// Record this job.
    Create(Job),
    /// Queue the job just recorded.
    Enqueue,
    /// Answer the request.
    Reply(Result<UploadAcceptedResponse, ApiError>),
}

/// The event is one the phase waits for.
pub open spec fn event_expected(phase: UploadPhase, e: UploadEvent) -> bool {
    match phase {
        UploadPhase::Start => e is Start,
        UploadPhase::AwaitField => e is MultipartRejected || e is FieldError || e is Field || e is EndOfFields,
        UploadPhase::AwaitFileBytes => e is FileBytes,
        UploadPhase::AwaitValidation => e is Validated,
        UploadPhase::AwaitStore => e is Stored,
        UploadPhase::AwaitCreate => e is Created,
        UploadPhase::AwaitEnqueue => e is Enqueued,
        UploadPhase::Done => false,
    }
}

/// `a` answers with an error.
pub open spec fn replies_error(a: UploadAction) -> bool {
    a matches UploadAction::Reply(Err(_))
}

/// `a` answers with the error `e` such that `p` holds of it.
pub open spec fn reply_error(a: UploadAction) -> ApiError {
    match a {
        UploadAction::Reply(Err(e)) => e,
        _ => arbitrary(),
    }
}

pub open spec fn queue_full(e: ApiError) -> bool {
    api_error_is(e, 429, "QUEUE_FULL"@, "Очередь обработки заполнена."@, true)
}

/// `n` is `o` in another phase, all else kept.
pub open spec fn only_phase(o: UploadState, n: UploadState, phase: UploadPhase) -> bool {
    n == UploadState { phase, ..o }
}

/// A fresh identifier: the prefix and 32 lowercase hexadecimal digits.
pub open spec fn fresh_id(id: Seq<char>, prefix: Seq<char>) -> bool {
    &&& id.len() == 36
    &&& id.take(4) == prefix
    &&& forall|i: int| 4 <= i < 36 ==> is_lower_hex(#[trigger] id[i])
}

/// One step of an upload: the state `n` and action `a` after event `e` in state `s`.
/// The queue is checked before anything is read; a rejected body or field fails
/// the request; the `file` field's bytes are read, other fields taken into the
/// options; at the end a file name and bytes are needed, then the file is
/// validated, stored under fresh identifiers, its job recorded and queued, and the
/// upload accepted. Each failure answers with its error and ends the upload.
pub open spec fn upload_next(s: UploadState, e: UploadEvent, n: UploadState, a: UploadAction) -> bool {
    match e {
        UploadEvent::Start { queue_remaining } => if queue_remaining == 0 {
            only_phase(s, n, UploadPhase::Done) && replies_error(a) && queue_full(reply_error(a))
        } else {
            only_phase(s, n, UploadPhase::AwaitField) && a is ReadField
        },
        UploadEvent::MultipartRejected { reason } => {
            &&& only_phase(s, n, UploadPhase::Done)
            &&& replies_error(a)
            &&& mentions_size(reason@) ==> api_error_is(reply_error(a), 413, "DOCUMENT_TOO_LARGE"@, too_large_message(), false)
            &&& !mentions_size(reason@) ==> api_error_is(
                reply_error(a),
                400,
                "INVALID_MULTIPART"@,
                "Некорректный multipart-запрос."@,
                false,
            )
        },
        UploadEvent::FieldError { payload_too_large } => {
            &&& only_phase(s, n, UploadPhase::Done)
            &&& replies_error(a)
            &&& payload_too_large ==> api_error_is(reply_error(a), 413, "DOCUMENT_TOO_LARGE"@, too_large_message(), false)
            &&& !payload_too_large ==> api_error_is(
                reply_error(a),
                400,
                "INVALID_MULTIPART"@,
                "Некорректный multipart-запрос."@,
                false,
            )
        },
        UploadEvent::Field { name, file_name, text } => if name@ == "file"@ {
            &&& n == UploadState { phase: UploadPhase::AwaitFileBytes, file_name: n.file_name, ..s }
            &&& n.file_name == file_name
            &&& a is ReadFileBytes
        } else {
            &&& n == UploadState { phase: UploadPhase::AwaitField, options: n.options, ..s }
            &&& applied_field(s.options, n.options, name@, text@)
            &&& a is ReadField
        },
        UploadEvent::FileBytes(r) => match r {
            Ok(bytes) => n == UploadState { phase: UploadPhase::AwaitField, file_bytes: Some(bytes), ..s } && a is ReadField,
            Err(too_large) => {
                &&& only_phase(s, n, UploadPhase::Done)
                &&& replies_error(a)
                &&& too_large ==> api_error_is(reply_error(a), 413, "DOCUMENT_TOO_LARGE"@, too_large_message(), false)
                &&& !too_large ==> api_error_is(
                    reply_error(a),
                    400,
                    "INVALID_UPLOAD"@,
                    "Не удалось прочитать загруженный файл."@,
                    false,
                )
            },
        },
        UploadEvent::EndOfFields => if s.file_name.is_none() || s.file_bytes.is_none() {
            &&& only_phase(s, n, UploadPhase::Done)
            &&& replies_error(a)
            &&& api_error_is(
                reply_error(a),
                400,
                "FILE_FIELD_MISSING"@,
                "Не найден обязательный multipart field 'file'."@,
                false,
            )
        } else {
            only_phase(s, n, UploadPhase::AwaitValidation) && a is Validate
        },
        UploadEvent::Validated(v) => match v {
            Err(err) => only_phase(s, n, UploadPhase::Done) && a == UploadAction::Reply(Err(err)),
            Ok(safe) => {
                &&& n == UploadState {
                    phase: UploadPhase::AwaitStore,
                    job_id: n.job_id,
                    document_id: n.document_id,
                    ..s
                }
                &&& fresh_id(n.job_id@, "job_"@)
                &&& fresh_id(n.document_id@, "doc_"@)
                &&& a matches UploadAction::Store { document_id, file_name } && document_id@ == n.document_id@
                    && file_name@ == safe@
            },
        },
        UploadEvent::Stored(p) => match p {
            None => {
                &&& only_phase(s, n, UploadPhase::Done)
                &&& replies_error(a)
                &&& api_error_is(
                    reply_error(a),
                    500,
                    "UPLOAD_STORE_FAILED"@,
                    "Не удалось сохранить загруженный файл."@,
                    true,
                )
            },
            Some(path) => {
                &&& n == UploadState { phase: UploadPhase::AwaitCreate, options: n.options, ..s }
                &&& a matches UploadAction::Create(j) && {
                    &&& j.job_id@ == s.job_id@
                    &&& j.document_id@ == s.document_id@
                    &&& j.input_path@ == path@
                    &&& j.status == JobStatus::Queued
                    &&& j.options == s.options
                    &&& j.error.is_none()
                }
            },
        },
        UploadEvent::Created(ok) => if ok {
            only_phase(s, n, UploadPhase::AwaitEnqueue) && a is Enqueue
        } else {
            &&& only_phase(s, n, UploadPhase::Done)
            &&& replies_error(a)
            &&& api_error_is(reply_error(a), 500, "JOB_CREATE_FAILED"@, "Не удалось создать задачу обработки."@, true)
        },
        UploadEvent::Enqueued(ok) => if ok {
            &&& only_phase(s, n, UploadPhase::Done)
            &&& a matches UploadAction::Reply(Ok(r)) && r.job_id@ == s.job_id@ && r.document_id@ == s.document_id@
                && r.status == JobStatus::Queued && r.message@ == "Документ принят в обработку."@
        } else {
            &&& only_phase(s, n, UploadPhase::Done)
            &&& replies_error(a)
            &&& queue_full(reply_error(a))
        },
    }
}

impl UploadState {
    /// An upload that has not begun: no file, the default options.
    pub fn new() -> (s: Self)
        ensures
            s.phase == UploadPhase::Start,
            s.file_name.is_none(),
            s.file_bytes.is_none(),
            s.options.language.is_none() && s.options.languages.is_none() && s.options.ocr_backend.is_none()
                && s.options.extract_tables.is_none() && s.options.table_chunks.is_none()
                && s.options.layout_backend.is_none() && s.options.model_stack_config.is_none()
                && s.options.model_profile.is_none() && s.options.domain.is_none()
                && s.options.enable_slow_path.is_none() && s.options.execute_slow_path.is_none()
                && s.options.legal_extract.is_none() && s.options.book_extract.is_none(),
            s.job_id@.len() == 0,
            s.document_id@.len() == 0,
    {
        UploadState {
            phase: UploadPhase::Start,
            file_name: None,
            file_bytes: None,
            options: ProcessingOptions::default(),
            job_id: String::new(),
            document_id: String::new(),
        }
    }
}

/// One step of an upload (see [`upload_next`]).
pub fn upload_step(state: UploadState, event: UploadEvent) -> (r: (UploadState, UploadAction))
    requires
        event_expected(state.phase, event),
    ensures
        upload_next(state, event, r.0, r.1),
{
    let ghost s0 = state;
    let mut s = state;
    match event {
        UploadEvent::Start { queue_remaining } => match check_queue_room(queue_remaining) {
            Err(e) => {
                s.phase = UploadPhase::Done;
                (s, UploadAction::Reply(Err(e)))
            },
            Ok(()) => {
                s.phase = UploadPhase::AwaitField;
                (s, UploadAction::ReadField)
            },
        },
        UploadEvent::MultipartRejected { reason } => {
            s.phase = UploadPhase::Done;
            (s, UploadAction::Reply(Err(multipart_error(reason.as_str()))))
        },
        UploadEvent::FieldError { payload_too_large } => {
            s.phase = UploadPhase::Done;
            (s, UploadAction::Reply(Err(multipart_field_error(payload_too_large))))
        },
        UploadEvent::Field { name, file_name, text } => {
            if crate::classifier::chars_eq(crate::text::chars_of(name.as_str()).as_slice(), "file") {
                s.phase = UploadPhase::AwaitFileBytes;
                s.file_name = file_name;
                (s, UploadAction::ReadFileBytes)
            } else {
                apply_form_field(&mut s.options, name.as_str(), text.as_str());
                s.phase = UploadPhase::AwaitField;
                (s, UploadAction::ReadField)
            }
        },
        UploadEvent::FileBytes(r) => match r {
            Ok(bytes) => {
                s.file_bytes = Some(bytes);
                s.phase = UploadPhase::AwaitField;
                (s, UploadAction::ReadField)
            },
            Err(too_large) => {
                s.phase = UploadPhase::Done;
                (s, UploadAction::Reply(Err(upload_read_error(too_large))))
            },
        },
        UploadEvent::EndOfFields => {
            if s.file_name.is_none() || s.file_bytes.is_none() {
                s.phase = UploadPhase::Done;
                (s, UploadAction::Reply(Err(missing_file_error())))
            } else {
                s.phase = UploadPhase::AwaitValidation;
                (s, UploadAction::Validate)
            }
        },
        UploadEvent::Validated(v) => match v {
            Err(err) => {
                s.phase = UploadPhase::Done;
                (s, UploadAction::Reply(Err(err)))
            },
            Ok(safe) => {
                s.job_id = new_job_id();
                s.document_id = new_document_id();
                s.phase = UploadPhase::AwaitStore;
                let d = s.document_id.clone();
                (s, UploadAction::Store { document_id: d, file_name: safe })
            },
        },
        UploadEvent::Stored(p) => match p {
            None => {
                s.phase = UploadPhase::Done;
                (s, UploadAction::Reply(Err(upload_store_error())))
            },
            Some(path) => {
                let mut options = ProcessingOptions::default();
                std::mem::swap(&mut options, &mut s.options);
                let job = Job::new(s.job_id.clone(), s.document_id.clone(), path, options);
                s.phase = UploadPhase::AwaitCreate;
                (s, UploadAction::Create(job))
            },
        },
        UploadEvent::Created(ok) => {
            if ok {
                s.phase = UploadPhase::AwaitEnqueue;
                (s, UploadAction::Enqueue)
            } else {
                s.phase = UploadPhase::Done;
                (s, UploadAction::Reply(Err(job_create_error())))
            }
        },
        UploadEvent::Enqueued(ok) => {
            s.phase = UploadPhase::Done;
            if ok {
                let resp = upload_accepted(s.job_id.clone(), s.document_id.clone());
                (s, UploadAction::Reply(Ok(resp)))
            } else {
                (s, UploadAction::Reply(Err(ApiError::new(429, "QUEUE_FULL", "Очередь обработки заполнена.", true))))
            }
        },
    }
}

} // verus!
