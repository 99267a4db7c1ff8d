//! Processing jobs: their options, statuses and how a run's outcome settles them.

use vstd::prelude::*;
use crate::classifier::chars_eq;
use crate::json::JsonValue;
use crate::model::ProcessingStatus;
use crate::text::{
    chars_of, lower_chars, lower_seq, push_str_chars, split_chars, split_on, string_from_chars,
    to_owned_string, trim, trim_chars, views,
};

verus! {

/// What a client asked for when submitting a document.
#[derive(Debug)]
pub struct ProcessingOptions {
    pub language: Option<String>,
    pub languages: Option<Vec<String>>,
    pub ocr_backend: Option<String>,
    pub extract_tables: Option<bool>,
    pub table_chunks: Option<bool>,
    pub layout_backend: Option<String>,
    pub model_stack_config: Option<String>,
    pub model_profile: Option<String>,
    pub domain: Option<String>,
    pub enable_slow_path: Option<bool>,
    pub execute_slow_path: Option<bool>,
    pub legal_extract: Option<bool>,
    pub book_extract: Option<bool>,
}

impl Default for ProcessingOptions {
    fn default() -> (o: Self)
        ensures
            o.language.is_none() && o.languages.is_none() && o.ocr_backend.is_none()
                && o.extract_tables.is_none() && o.table_chunks.is_none() && o.layout_backend.is_none()
                && o.model_stack_config.is_none() && o.model_profile.is_none() && o.domain.is_none()
                && o.enable_slow_path.is_none() && o.execute_slow_path.is_none()
                && o.legal_extract.is_none() && o.book_extract.is_none(),
    {
        ProcessingOptions {
            language: None,
            languages: None,
            ocr_backend: None,
            extract_tables: None,
            table_chunks: None,
            layout_backend: None,
            model_stack_config: None,
            model_profile: None,
            domain: None,
            enable_slow_path: None,
            execute_slow_path: None,
            legal_extract: None,
            book_extract: None,
        }
    }
}

/// A form value that switches something on: `true`, `1` or `yes`, in any ASCII case.
pub open spec fn truthy(text: Seq<char>) -> bool {
    let l = lower_seq(text);
    l == "true"@ || l == "1"@ || l == "yes"@
}

pub fn parse_flag(text: &str) -> (r: bool)
    ensures
        r == truthy(text@),
{
    let l = lower_chars(chars_of(text).as_slice());
    let s = l.as_slice();
    chars_eq(s, "true") || chars_eq(s, "1") || chars_eq(s, "yes")
}

/// The pieces trimmed, the empty ones left out.
pub open spec fn kept_pieces(p: Seq<Seq<char>>) -> Seq<Seq<char>>
    decreases p.len(),
{
    if p.len() == 0 {
        Seq::empty()
    } else {
        let rest = kept_pieces(p.drop_last());
        if trim(p.last()).len() > 0 {
            rest.push(trim(p.last()))
        } else {
            rest
        }
    }
}

/// The languages listed in a comma-separated form value.
pub open spec fn listed_languages(text: Seq<char>) -> Seq<Seq<char>> {
    kept_pieces(split_on(text, ','))
}

/// The languages listed in a comma-separated form value, trimmed, without empty
/// entries.
pub fn parse_languages(text: &str) -> (r: Vec<String>)
    ensures
        views(r@) == listed_languages(text@),
{
    let v = chars_of(text);
    let pieces = split_chars(v.as_slice(), ',');
    let ghost p = split_on(text@, ',');
    let mut out: Vec<String> = Vec::new();
    let mut i: usize = 0;
    while i < pieces.len()
        invariant
            i <= pieces@.len(),
            v@ == text@,
            p == split_on(text@, ','),
            pieces@.len() == p.len(),
            forall|k: int| 0 <= k < pieces@.len() ==> #[trigger] pieces@[k]@ == p[k],
            views(out@) == kept_pieces(p.take(i as int)),
        decreases pieces@.len() - i,
    {
        proof {
            assert(p.take(i + 1).drop_last() =~= p.take(i as int));
        }
        let t = trim_chars(pieces[i].as_slice());
        let ghost before = out@;
        if t.len() > 0 {
            out.push(string_from_chars(t.as_slice()));
            assert(views(out@) =~= views(before).push(t@));
        }
        i = i + 1;
    }
    assert(p.take(i as int) =~= p);
    out
}

/// The options after one form field `name` with value `text`: `language`,
/// `ocr_backend` and `layout_backend` are taken as they are, `languages` as a
/// comma-separated list (kept only when it lists something), `extract_tables` and
/// `table_chunks` as flags; other fields change nothing.
pub open spec fn applied_field(o: ProcessingOptions, n: ProcessingOptions, name: Seq<char>, text: Seq<char>) -> bool {
    if name == "language"@ {
        n == ProcessingOptions { language: n.language, ..o } && n.language.is_some()
            && n.language.unwrap()@ == text
    } else if name == "languages"@ {
        if listed_languages(text).len() > 0 {
            n == ProcessingOptions { languages: n.languages, ..o } && n.languages.is_some() && views(
                n.languages.unwrap()@,
            ) == listed_languages(text)
        } else {
            n == o
        }
    } else if name == "ocr_backend"@ {
        n == ProcessingOptions { ocr_backend: n.ocr_backend, ..o } && n.ocr_backend.is_some()
            && n.ocr_backend.unwrap()@ == text
    } else if name == "extract_tables"@ {
        n == ProcessingOptions { extract_tables: Some(truthy(text)), ..o }
    } else if name == "table_chunks"@ {
        n == ProcessingOptions { table_chunks: Some(truthy(text)), ..o }
    } else if name == "layout_backend"@ {
        n == ProcessingOptions { layout_backend: n.layout_backend, ..o } && n.layout_backend.is_some()
            && n.layout_backend.unwrap()@ == text
    } else {
        n == o
    }
}

/// Takes one field of an upload form into the options.
pub fn apply_form_field(options: &mut ProcessingOptions, name: &str, text: &str)
    ensures
        applied_field(*old(options), *final(options), name@, text@),
{
    let nv = chars_of(name);
    let n = nv.as_slice();
    if chars_eq(n, "language") {
        options.language = Some(to_owned_string(text));
    } else if chars_eq(n, "languages") {
        let values = parse_languages(text);
        if values.len() > 0 {
            options.languages = Some(values);
        }
    } else if chars_eq(n, "ocr_backend") {
        options.ocr_backend = Some(to_owned_string(text));
    } else if chars_eq(n, "extract_tables") {
        options.extract_tables = Some(parse_flag(text));
    } else if chars_eq(n, "table_chunks") {
        options.table_chunks = Some(parse_flag(text));
    } else if chars_eq(n, "layout_backend") {
        options.layout_backend = Some(to_owned_string(text));
    }
}

/// Where a job stands.
#[derive(Clone, Copy, Debug, PartialEq, Eq, Structural)]
pub enum JobStatus {
    Queued,
    Processing,
    Completed,
    Partial,
    Failed,
}

/// How far a job has come; `percent` is a whole percentage.
#[derive(Debug)]
pub struct JobProgress {
    pub stage: Option<String>,
    pub pages_total: Option<usize>,
    pub pages_processed: Option<usize>,
    pub percent: Option<u32>,
}

impl Default for JobProgress {
    fn default() -> (p: Self)
        ensures
            p.stage.is_none() && p.pages_total.is_none() && p.pages_processed.is_none() && p.percent.is_none(),
    {
        JobProgress { stage: None, pages_total: None, pages_processed: None, percent: None }
    }
}

impl JobProgress {
    /// The progress of a job at `stage`, `percent` done.
    pub fn at(stage: &str, percent: u32) -> (p: Self)
        ensures
            p.stage.is_some() && p.stage.unwrap()@ == stage@,
            p.pages_total.is_none(),
            p.pages_processed.is_none(),
            p.percent == Some(percent),
    {
        JobProgress {
            stage: Some(to_owned_string(stage)),
            pages_total: None,
            pages_processed: None,
            percent: Some(percent),
        }
    }
}

/// The error an API client sees.
#[derive(Debug)]
pub struct ApiErrorPayload {
    pub code: String,
    pub message: String,
    pub recoverable: bool,
    pub details: Vec<(String, JsonValue)>,
}

impl ApiErrorPayload {
    pub fn new(code: &str, message: &str, recoverable: bool) -> (p: Self)
        ensures
            p.code@ == code@,
            p.message@ == message@,
            p.recoverable == recoverable,
            p.details@.len() == 0,
    {
        ApiErrorPayload {
            code: to_owned_string(code),
            message: to_owned_string(message),
            recoverable,
            details: Vec::new(),
        }
    }
}

/// A document's processing job.
#[derive(Debug)]
pub struct Job {
    pub job_id: String,
    pub document_id: String,
    pub input_path: String,
    pub status: JobStatus,
    pub progress: JobProgress,
    pub options: ProcessingOptions,
    /// When the job was made, as RFC 3339 text.
    pub created_at: String,
    /// When the job last changed, as RFC 3339 text.
    pub updated_at: String,
    pub error: Option<ApiErrorPayload>,
}

/// Calls chrono's `Utc::now()` and formats it with `to_rfc3339`. The result is the
/// clock's reading, so the contract says nothing of it.
#[verifier::external_body]
fn utc_now_rfc3339() -> (r: String) {
    chrono::Utc::now().to_rfc3339()
}

impl Job {
    /// A new job, queued, with no progress yet, made and last changed now.
    pub fn new(job_id: String, document_id: String, input_path: String, options: ProcessingOptions) -> (j: Self)
        ensures
            j.job_id == job_id,
            j.document_id == document_id,
            j.input_path == input_path,
            j.status == JobStatus::Queued,
            j.progress.stage.is_none() && j.progress.pages_total.is_none()
                && j.progress.pages_processed.is_none() && j.progress.percent.is_none(),
            j.options == options,
            j.created_at@ == j.updated_at@,
            j.error.is_none(),
    {
        let now = utc_now_rfc3339();
        Job {
            job_id,
            document_id,
            input_path,
            status: JobStatus::Queued,
            progress: JobProgress::default(),
            options,
            created_at: now.clone(),
            updated_at: now,
            error: None,
        }
    }
}

/// `n` is the job `o` taken up by a worker: processing, at the `processing` stage,
/// 5% done, changed at some time.
pub open spec fn processing_job(o: Job, n: Job) -> bool {
    &&& n.status == JobStatus::Processing
    &&& n.progress.stage.is_some() && n.progress.stage.unwrap()@ == "processing"@
    &&& n.progress.pages_total.is_none() && n.progress.pages_processed.is_none()
    &&& n.progress.percent == Some(5u32)
    &&& n == (Job { status: n.status, progress: n.progress, updated_at: n.updated_at, ..o })
}

/// `n` is the job `o` at the `finished` stage, 100% done, in status `status` with
/// error `error`, changed at some time.
pub open spec fn finished_as(o: Job, n: Job, status: JobStatus, error: Option<ApiErrorPayload>) -> bool {
    &&& n.progress.stage.is_some() && n.progress.stage.unwrap()@ == "finished"@
    &&& n.progress.pages_total.is_none() && n.progress.pages_processed.is_none()
    &&& n.progress.percent == Some(100u32)
    &&& n == (Job { status, progress: n.progress, updated_at: n.updated_at, error, ..o })
}

/// `n` is the job `o` failed with the error a run that failed with `text` records
/// (see [`failure_payload`]).
pub open spec fn finished_failed(o: Job, n: Job, text: Seq<char>) -> bool {
    &&& finished_as(o, n, JobStatus::Failed, n.error)
    &&& n.error.is_some()
    &&& n.error.unwrap().code@ == failure_payload(text).0
    &&& n.error.unwrap().message@ == failure_payload(text).1
    &&& n.error.unwrap().recoverable == failure_payload(text).2
}

/// `n` is the job `o` settled by how its run ended (see [`settle_job`]).
pub open spec fn finished_job(o: Job, n: Job, outcome: JobRunOutcome) -> bool {
    match outcome {
        JobRunOutcome::Finished(s) => finished_as(o, n, status_for(s), o.error),
        JobRunOutcome::Failed(text) => finished_failed(o, n, text@),
        JobRunOutcome::TimedOut => {
            &&& finished_as(o, n, JobStatus::Failed, n.error)
            &&& n.error.is_some()
            &&& n.error.unwrap().code@ == "PROCESSING_TIMEOUT"@
            &&& !n.error.unwrap().recoverable
        },
    }
}

impl Job {
    /// The job taken up by a worker: processing, at the `processing` stage, 5%
    /// done, changed now.
    pub fn mark_processing(&mut self)
        ensures
            final(self).status == JobStatus::Processing,
            final(self).progress.stage.is_some() && final(self).progress.stage.unwrap()@ == "processing"@,
            final(self).progress.pages_total.is_none() && final(self).progress.pages_processed.is_none(),
            final(self).progress.percent == Some(5u32),
            *final(self) == (Job {
                status: final(self).status,
                progress: final(self).progress,
                updated_at: final(self).updated_at,
                ..*old(self)
            }),
            processing_job(*old(self), *final(self)),
    {
        self.status = JobStatus::Processing;
        self.updated_at = utc_now_rfc3339();
        self.progress = JobProgress::at("processing", 5);
    }

    /// The job settled by how its run ended (see [`settle_job`]): its status, the
    /// error the run left if any (else the error it had), the `finished` stage at
    /// 100%, changed now.
    pub fn mark_finished(&mut self, outcome: &JobRunOutcome)
        ensures
            final(self).progress.stage.is_some() && final(self).progress.stage.unwrap()@ == "finished"@,
            final(self).progress.pages_total.is_none() && final(self).progress.pages_processed.is_none(),
            final(self).progress.percent == Some(100u32),
            final(self).status == JobStatus::Completed || final(self).status == JobStatus::Partial
                || final(self).status == JobStatus::Failed,
            match outcome {
                JobRunOutcome::Finished(s) => final(self).status == status_for(*s)
                    && final(self).error == old(self).error,
                JobRunOutcome::Failed(text) => final(self).status == JobStatus::Failed
                    && final(self).error.is_some()
                    && final(self).error.unwrap().code@ == failure_payload(text@).0
                    && final(self).error.unwrap().message@ == failure_payload(text@).1
                    && final(self).error.unwrap().recoverable == failure_payload(text@).2,
                JobRunOutcome::TimedOut => final(self).status == JobStatus::Failed
                    && final(self).error.is_some()
                    && final(self).error.unwrap().code@ == "PROCESSING_TIMEOUT"@
                    && !final(self).error.unwrap().recoverable,
            },
            *final(self) == (Job {
                status: final(self).status,
                progress: final(self).progress,
                updated_at: final(self).updated_at,
                error: final(self).error,
                ..*old(self)
            }),
            finished_job(*old(self), *final(self), *outcome),
    {
        let (status, error) = settle_job(outcome);
        self.status = status;
        match error {
            Some(e) => {
                self.error = Some(e);
            },
            None => {},
        }
        self.updated_at = utc_now_rfc3339();
        self.progress = JobProgress::at("finished", 100);
    }
}

/// How a run of the pipeline for a job ended.
#[derive(Debug)]
pub enum JobRunOutcome {
    /// The document was processed, with this status.
    Finished(ProcessingStatus),
    /// The run failed with this error text.
    Failed(String),
    /// The run took longer than allowed.
    TimedOut,
}

/// The job status for a finished document's processing status.
pub open spec fn status_for(s: ProcessingStatus) -> JobStatus {
    match s {
        ProcessingStatus::Complete => JobStatus::Completed,
        ProcessingStatus::Partial => JobStatus::Partial,
        ProcessingStatus::Failed => JobStatus::Failed,
    }
}

/// The code, message and recoverability of the error a failed run records.
pub open spec fn failure_payload(text: Seq<char>) -> (Seq<char>, Seq<char>, bool) {
    if text == "MAX_PAGES_LIMIT_EXCEEDED"@ {
        ("DOCUMENT_TOO_LARGE"@, "Количество страниц документа превышает допустимый лимит."@, false)
    } else if text == "OUTPUT_ASSETS_LIMIT_EXCEEDED"@ {
        (
            "OUTPUT_ASSETS_LIMIT_EXCEEDED"@,
            "Общий размер извлеченных assets превышает допустимый лимит."@,
            false,
        )
    } else {
        ("PROCESSING_FAILED"@, "Ошибка обработки документа: "@ + text, true)
    }
}

/// The status a job ends in, and the error it records, for how its run ended.
pub fn settle_job(outcome: &JobRunOutcome) -> (r: (JobStatus, Option<ApiErrorPayload>))
    ensures
        match outcome {
            JobRunOutcome::Finished(s) => r.0 == status_for(*s) && r.1.is_none(),
            JobRunOutcome::Failed(text) => r.0 == JobStatus::Failed && r.1.is_some() && r.1.unwrap().code@
                == failure_payload(text@).0 && r.1.unwrap().message@ == failure_payload(text@).1
                && r.1.unwrap().recoverable == failure_payload(text@).2 && r.1.unwrap().details@.len() == 0,
            JobRunOutcome::TimedOut => r.0 == JobStatus::Failed && r.1.is_some() && r.1.unwrap().code@
                == "PROCESSING_TIMEOUT"@ && !r.1.unwrap().recoverable,
        },
{
    match outcome {
        JobRunOutcome::Finished(s) => {
            let st = match s {
                ProcessingStatus::Complete => JobStatus::Completed,
                ProcessingStatus::Partial => JobStatus::Partial,
                ProcessingStatus::Failed => JobStatus::Failed,
            };
            (st, None)
        },
        JobRunOutcome::Failed(text) => {
            let t = chars_of(text.as_str());
            let payload = if chars_eq(t.as_slice(), "MAX_PAGES_LIMIT_EXCEEDED") {
                ApiErrorPayload::new(
                    "DOCUMENT_TOO_LARGE",
                    "Количество страниц документа превышает допустимый лимит.",
                    false,
                )
            } else if chars_eq(t.as_slice(), "OUTPUT_ASSETS_LIMIT_EXCEEDED") {
                ApiErrorPayload::new(
                    "OUTPUT_ASSETS_LIMIT_EXCEEDED",
                    "Общий размер извлеченных assets превышает допустимый лимит.",
                    false,
                )
            } else {
                let mut m: Vec<char> = Vec::new();
                push_str_chars(&mut m, "Ошибка обработки документа: ");
                push_str_chars(&mut m, text.as_str());
                ApiErrorPayload {
                    code: to_owned_string("PROCESSING_FAILED"),
                    message: string_from_chars(m.as_slice()),
                    recoverable: true,
                    details: Vec::new(),
                }
            };
            (JobStatus::Failed, Some(payload))
        },
        JobRunOutcome::TimedOut => (
            JobStatus::Failed,
            Some(
                ApiErrorPayload::new(
                    "PROCESSING_TIMEOUT",
                    "Превышено максимальное время обработки документа.",
                    false,
                ),
            ),
        ),
    }
}

/// A processed document may have at most `max_pages` pages.
pub fn check_page_limit(pages: usize, max_pages: usize) -> (r: Result<(), String>)
    ensures
        r.is_ok() == (pages <= max_pages),
        r matches Err(t) ==> t@ == "MAX_PAGES_LIMIT_EXCEEDED"@,
{
    if pages > max_pages {
        return Err(to_owned_string("MAX_PAGES_LIMIT_EXCEEDED"));
    }
    Ok(())
}

/// The extracted assets may take at most `max_mb` megabytes (the limit saturates
/// at the largest `u64`).
pub fn check_assets_limit(assets_bytes: u64, max_mb: u64) -> (r: Result<(), String>)
    ensures
        r.is_ok() == (assets_bytes <= (if max_mb * 1048576 > u64::MAX {
            u64::MAX as int
        } else {
            max_mb * 1048576
        })),
        r matches Err(t) ==> t@ == "OUTPUT_ASSETS_LIMIT_EXCEEDED"@,
{
    let max_bytes: u64 = match max_mb.checked_mul(1024 * 1024) {
        Some(v) => v,
        None => u64::MAX,
    };
    if assets_bytes > max_bytes {
        return Err(to_owned_string("OUTPUT_ASSETS_LIMIT_EXCEEDED"));
    }
    Ok(())
}


/// The job queue's decisions; the channel and the workers that drain it are the
/// caller's. A queue holds at least one job and runs at least one job at a time.
pub struct JobQueuePolicy {
    /// The capacity the queue was configured with.
    pub max_capacity: usize,
    /// The channel's capacity: the configured one, at least 1.
    pub channel_capacity: usize,
    /// How many jobs run at once: the configured number, at least 1.
    pub workers: usize,
}

impl JobQueuePolicy {
    pub fn new(capacity: usize, max_concurrent_jobs: usize) -> (q: Self)
        ensures
            q.max_capacity == capacity,
            q.channel_capacity == (if capacity > 1 { capacity } else { 1 }),
            q.workers == (if max_concurrent_jobs > 1 { max_concurrent_jobs } else { 1 }),
    {
        JobQueuePolicy {
            max_capacity: capacity,
            channel_capacity: if capacity > 1 { capacity } else { 1 },
            workers: if max_concurrent_jobs > 1 { max_concurrent_jobs } else { 1 },
        }
    }

    /// A job is refused outright by a queue configured with no room; otherwise it
    /// goes to the channel (where it waits for room).
    pub fn accept_job(&self) -> (r: Result<(), String>)
        ensures
            r.is_ok() == (self.max_capacity > 0),
            r matches Err(m) ==> m@ == "queue is full"@,
    {
        if self.max_capacity == 0 {
            return Err("queue is full".to_string());
        }
        Ok(())
    }

    /// The room left: none for a queue configured with no room, else what the
    /// channel has free.
    pub fn remaining_capacity(&self, channel_free: usize) -> (r: usize)
        ensures
            r == (if self.max_capacity == 0 { 0 } else { channel_free }),
    {
        if self.max_capacity == 0 {
            0
        } else {
            channel_free
        }
    }
}

} // verus!
