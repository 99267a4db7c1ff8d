//! The environment check (`doctor`): the checks it runs, how they are judged and
//! how the report reads.
//!
//! Loading files, probing directories and looking up commands is the caller's
//! part; the functions here turn each outcome into a check.

use vstd::prelude::*;
use crate::config::{PipelineConfig, ServiceProfile};
use crate::json::{JsonValue, bool_or, json_get, str_or};
use crate::text::{
    chars_of, lower_chars, lower_seq, push_str_chars, string_from_chars, to_owned_string, trim,
};

verus! {

#[derive(Clone, Copy, Debug, PartialEq, Eq, Structural)]
pub enum DoctorStatus {
    Pass,
    Warn,
    Error,
}

#[derive(Debug)]
pub struct DoctorCheck {
    pub code: String,
    pub status: DoctorStatus,
    pub message: String,
}

#[derive(Debug)]
pub struct DoctorReport {
    pub generated_at: String,
    pub checks: Vec<DoctorCheck>,
}

/// How grave a status is: passing, a warning, an error.
pub open spec fn severity(s: DoctorStatus) -> nat {
    match s {
        DoctorStatus::Pass => 0,
        DoctorStatus::Warn => 1,
        DoctorStatus::Error => 2,
    }
}

pub open spec fn any_with(checks: Seq<DoctorCheck>, s: DoctorStatus) -> bool {
    exists|i: int| 0 <= i < checks.len() && (#[trigger] checks[i]).status == s
}

/// The report's status: an error if any check failed, else a warning if any
/// warned, else a pass.
pub open spec fn overall_of(checks: Seq<DoctorCheck>) -> DoctorStatus {
    if any_with(checks, DoctorStatus::Error) {
        DoctorStatus::Error
    } else if any_with(checks, DoctorStatus::Warn) {
        DoctorStatus::Warn
    } else {
        DoctorStatus::Pass
    }
}

fn any_status(checks: &Vec<DoctorCheck>, s: DoctorStatus) -> (r: bool)
    ensures
        r == any_with(checks@, s),
{
    let mut i: usize = 0;
    while i < checks.len()
        invariant
            i <= checks@.len(),
            forall|k: int| 0 <= k < i ==> (#[trigger] checks@[k]).status != s,
        decreases checks@.len() - i,
    {
        if checks[i].status == s {
            return true;
        }
        i = i + 1;
    }
    false
}

impl DoctorReport {
    pub fn overall_status(&self) -> (s: DoctorStatus)
        ensures
            s == overall_of(self.checks@),
    {
        if any_status(&self.checks, DoctorStatus::Error) {
            DoctorStatus::Error
        } else if any_status(&self.checks, DoctorStatus::Warn) {
            DoctorStatus::Warn
        } else {
            DoctorStatus::Pass
        }
    }
}

/// The report's status is that of its gravest check; a report with no checks
/// passes.
pub proof fn law_overall_is_gravest(checks: Seq<DoctorCheck>)
    ensures
        forall|i: int| 0 <= i < checks.len() ==> severity(#[trigger] checks[i].status) <= severity(overall_of(checks)),
        checks.len() == 0 ==> overall_of(checks) == DoctorStatus::Pass,
        overall_of(checks) != DoctorStatus::Pass ==> exists|i: int|
            0 <= i < checks.len() && (#[trigger] checks[i]).status == overall_of(checks),
{
    assert forall|i: int| 0 <= i < checks.len() implies severity(#[trigger] checks[i].status) <= severity(
        overall_of(checks),
    ) by {
        if checks[i].status == DoctorStatus::Error {
            assert(any_with(checks, DoctorStatus::Error));
        } else if checks[i].status == DoctorStatus::Warn {
            assert(any_with(checks, DoctorStatus::Warn));
        }
    }
}

proof fn lemma_any_with_grows(a: Seq<DoctorCheck>, more: Seq<DoctorCheck>, st: DoctorStatus)
    requires
        any_with(a, st),
    ensures
        any_with(a + more, st),
{
    let i = choose|i: int| 0 <= i < a.len() && (#[trigger] a[i]).status == st;
    assert((a + more)[i] == a[i]);
}

/// Adding checks never makes a report less grave, however many are added.
pub proof fn law_more_checks_never_less_grave(checks: Seq<DoctorCheck>, more: Seq<DoctorCheck>)
    ensures
        severity(overall_of(checks + more)) >= severity(overall_of(checks)),
{
    if any_with(checks, DoctorStatus::Error) {
        lemma_any_with_grows(checks, more, DoctorStatus::Error);
    } else if any_with(checks, DoctorStatus::Warn) {
        lemma_any_with_grows(checks, more, DoctorStatus::Warn);
    }
}

proof fn lemma_any_with_same_members(a: Seq<DoctorCheck>, b: Seq<DoctorCheck>, st: DoctorStatus)
    requires
        a.to_multiset() == b.to_multiset(),
        any_with(a, st),
    ensures
        any_with(b, st),
{
    let i = choose|i: int| 0 <= i < a.len() && (#[trigger] a[i]).status == st;
    a.to_multiset_ensures();
    b.to_multiset_ensures();
    assert(a.contains(a[i]));
    assert(b.to_multiset().count(a[i]) > 0);
    assert(b.contains(a[i]));
    let j = choose|j: int| 0 <= j < b.len() && b[j] == a[i];
    assert(b[j].status == st);
}

/// The order of the checks does not matter: reports whose checks are the same,
/// taken in any order, have the same status.
pub proof fn law_reordered_checks_same_status(a: Seq<DoctorCheck>, b: Seq<DoctorCheck>)
    requires
        a.to_multiset() == b.to_multiset(),
    ensures
        overall_of(a) == overall_of(b),
{
    if any_with(a, DoctorStatus::Error) {
        lemma_any_with_same_members(a, b, DoctorStatus::Error);
    }
    if any_with(b, DoctorStatus::Error) {
        lemma_any_with_same_members(b, a, DoctorStatus::Error);
    }
    if any_with(a, DoctorStatus::Warn) {
        lemma_any_with_same_members(a, b, DoctorStatus::Warn);
    }
    if any_with(b, DoctorStatus::Warn) {
        lemma_any_with_same_members(b, a, DoctorStatus::Warn);
    }
}

/// Adding a check never makes a report less grave: the new status is the graver
/// of the old one and the added check's.
pub proof fn law_adding_check_keeps_gravest(checks: Seq<DoctorCheck>, c: DoctorCheck)
    ensures
        severity(overall_of(checks.push(c))) == if severity(overall_of(checks)) >= severity(
            c.status,
        ) {
            severity(overall_of(checks))
        } else {
            severity(c.status)
        },
{
    let n = checks.push(c);
    assert(n[checks.len() as int] == c);
    if any_with(checks, DoctorStatus::Error) {
        let i = choose|i: int| 0 <= i < checks.len() && (#[trigger] checks[i]).status == DoctorStatus::Error;
        assert(n[i] == checks[i]);
    }
    if any_with(checks, DoctorStatus::Warn) {
        let i = choose|i: int| 0 <= i < checks.len() && (#[trigger] checks[i]).status == DoctorStatus::Warn;
        assert(n[i] == checks[i]);
    }
    if any_with(n, DoctorStatus::Error) && c.status != DoctorStatus::Error {
        let i = choose|i: int| 0 <= i < n.len() && (#[trigger] n[i]).status == DoctorStatus::Error;
        assert(i < checks.len());
        assert(checks[i] == n[i]);
    }
    if any_with(n, DoctorStatus::Warn) && c.status != DoctorStatus::Warn {
        let i = choose|i: int| 0 <= i < n.len() && (#[trigger] n[i]).status == DoctorStatus::Warn;
        assert(i < checks.len());
        assert(checks[i] == n[i]);
    }
}

/// Where the doctor looks for its configuration.
#[derive(Debug)]
pub struct DoctorOptions {
    pub pipeline_config_path: String,
    pub service_profile_path: String,
}

impl Default for DoctorOptions {
    fn default() -> (o: Self)
        ensures
            o.pipeline_config_path@ == "configs/pipeline.config.jsonc"@,
            o.service_profile_path@ == "configs/profiles/api.jsonc"@,
    {
        DoctorOptions {
            pipeline_config_path: to_owned_string("configs/pipeline.config.jsonc"),
            service_profile_path: to_owned_string("configs/profiles/api.jsonc"),
        }
    }
}

pub open spec fn level_of(s: DoctorStatus) -> Seq<char> {
    match s {
        DoctorStatus::Pass => "OK"@,
        DoctorStatus::Warn => "WARN"@,
        DoctorStatus::Error => "ERROR"@,
    }
}

pub open spec fn report_lines(checks: Seq<DoctorCheck>) -> Seq<char>
    decreases checks.len(),
{
    if checks.len() == 0 {
        Seq::empty()
    } else {
        let c = checks.last();
        report_lines(checks.drop_last()) + level_of(c.status) + ": "@ + c.message@ + "\n"@
    }
}

/// The report as text: a title line, a blank line, then `LEVEL: message` per check.
pub open spec fn report_text(checks: Seq<DoctorCheck>) -> Seq<char> {
    "Проверка окружения document-parser\n\n"@ + report_lines(checks)
}

fn level_str(s: DoctorStatus) -> (r: &'static str)
    ensures
        r@ == level_of(s),
{
    match s {
        DoctorStatus::Pass => "OK",
        DoctorStatus::Warn => "WARN",
        DoctorStatus::Error => "ERROR",
    }
}

pub fn render_doctor_report_text(report: &DoctorReport) -> (s: String)
    ensures
        s@ == report_text(report.checks@),
{
    let mut out: Vec<char> = Vec::new();
    push_str_chars(&mut out, "Проверка окружения document-parser\n\n");
    let ghost head = out@;
    let mut i: usize = 0;
    while i < report.checks.len()
        invariant
            i <= report.checks@.len(),
            head == "Проверка окружения document-parser\n\n"@,
            out@ == head + report_lines(report.checks@.take(i as int)),
        decreases report.checks@.len() - i,
    {
        let c = &report.checks[i];
        push_str_chars(&mut out, level_str(c.status));
        push_str_chars(&mut out, ": ");
        push_str_chars(&mut out, c.message.as_str());
        push_str_chars(&mut out, "\n");
        proof {
            assert(report.checks@.take(i + 1).drop_last() =~= report.checks@.take(i as int));
            assert(out@ =~= head + report_lines(report.checks@.take(i + 1)));
        }
        i = i + 1;
    }
    assert(report.checks@.take(i as int) =~= report.checks@);
    string_from_chars(out.as_slice())
}

fn check(code: &str, status: DoctorStatus, message: String) -> (c: DoctorCheck)
    ensures
        c.code@ == code@,
        c.status == status,
        c.message@ == message@,
{
    DoctorCheck { code: to_owned_string(code), status, message }
}

fn concat(a: &str, b: &str) -> (s: String)
    ensures
        s@ == a@ + b@,
{
    let mut v: Vec<char> = Vec::new();
    push_str_chars(&mut v, a);
    push_str_chars(&mut v, b);
    string_from_chars(v.as_slice())
}

/// The check for loading the pipeline configuration; `error` is why loading
/// failed, if it did.
pub fn pipeline_config_check(error: Option<&str>) -> (c: DoctorCheck)
    ensures
        match error {
            None => c.code@ == "DOCTOR_CONFIG_LOADED"@ && c.status == DoctorStatus::Pass,
            Some(e) => c.code@ == "DOCTOR_CONFIG_INVALID"@ && c.status == DoctorStatus::Error
                && c.message@ == "Ошибка загрузки pipeline-конфига: "@ + e@,
        },
{
    match error {
        None => check(
            "DOCTOR_CONFIG_LOADED",
            DoctorStatus::Pass,
            to_owned_string("Конфигурация pipeline загружена."),
        ),
        Some(e) => check(
            "DOCTOR_CONFIG_INVALID",
            DoctorStatus::Error,
            concat("Ошибка загрузки pipeline-конфига: ", e),
        ),
    }
}

/// The check for loading the service profile; `error` is why loading failed, if
/// it did.
pub fn service_profile_check(error: Option<&str>) -> (c: DoctorCheck)
    ensures
        match error {
            None => c.code@ == "DOCTOR_SERVICE_PROFILE_LOADED"@ && c.status == DoctorStatus::Pass,
            Some(e) => c.code@ == "DOCTOR_CONFIG_INVALID"@ && c.status == DoctorStatus::Error
                && c.message@ == "Ошибка загрузки service profile: "@ + e@,
        },
{
    match error {
        None => check(
            "DOCTOR_SERVICE_PROFILE_LOADED",
            DoctorStatus::Pass,
            to_owned_string("Сервисный профиль загружен."),
        ),
        Some(e) => check(
            "DOCTOR_CONFIG_INVALID",
            DoctorStatus::Error,
            concat("Ошибка загрузки service profile: ", e),
        ),
    }
}

/// The check for a storage directory (`kind` is `input` or `output`); `error` is
/// why writing there failed, if it did.
pub fn storage_check(kind: &str, path: &str, error: Option<&str>) -> (c: DoctorCheck)
    ensures
        match error {
            None => c.code@ == "DOCTOR_STORAGE_AVAILABLE"@ && c.status == DoctorStatus::Pass
                && c.message@ == "Каталог "@ + kind@ + " доступен для записи: "@ + path@,
            Some(e) => c.code@ == "DOCTOR_STORAGE_UNAVAILABLE"@ && c.status == DoctorStatus::Error
                && c.message@ == "Каталог "@ + kind@ + " недоступен для записи ("@ + path@ + "): "@
                + e@,
        },
{
    let mut v: Vec<char> = Vec::new();
    push_str_chars(&mut v, "Каталог ");
    push_str_chars(&mut v, kind);
    match error {
        None => {
            push_str_chars(&mut v, " доступен для записи: ");
            push_str_chars(&mut v, path);
            check("DOCTOR_STORAGE_AVAILABLE", DoctorStatus::Pass, string_from_chars(v.as_slice()))
        },
        Some(e) => {
            push_str_chars(&mut v, " недоступен для записи (");
            push_str_chars(&mut v, path);
            push_str_chars(&mut v, "): ");
            push_str_chars(&mut v, e);
            check("DOCTOR_STORAGE_UNAVAILABLE", DoctorStatus::Error, string_from_chars(v.as_slice()))
        },
    }
}

/// Every security limit is above zero.
pub open spec fn limits_sane(p: ServiceProfile) -> bool {
    let s = p.security;
    s.max_file_size_mb > 0 && s.max_pages_per_document > 0 && s.max_processing_time_sec > 0
        && s.max_archive_entries > 0 && s.max_archive_total_uncompressed_mb > 0
        && s.max_image_width_px > 0 && s.max_image_height_px > 0
}

pub fn check_security_limits(profile: &ServiceProfile, checks: &mut Vec<DoctorCheck>)
    ensures
        final(checks)@.len() == old(checks)@.len() + 1,
        final(checks)@.drop_last() == old(checks)@,
        limits_sane(*profile) ==> final(checks)@.last().code@ == "DOCTOR_SECURITY_LIMITS_SANE"@
            && final(checks)@.last().status == DoctorStatus::Pass,
        !limits_sane(*profile) ==> final(checks)@.last().code@ == "DOCTOR_CONFIG_INVALID"@
            && final(checks)@.last().status == DoctorStatus::Error,
{
    let sec = &profile.security;
    let sane = sec.max_file_size_mb > 0 && sec.max_pages_per_document > 0
        && sec.max_processing_time_sec > 0 && sec.max_archive_entries > 0
        && sec.max_archive_total_uncompressed_mb > 0 && sec.max_image_width_px > 0
        && sec.max_image_height_px > 0;
    if sane {
        checks.push(
            check(
                "DOCTOR_SECURITY_LIMITS_SANE",
                DoctorStatus::Pass,
                to_owned_string("Базовые security-лимиты выглядят корректными."),
            ),
        );
    } else {
        checks.push(
            check(
                "DOCTOR_CONFIG_INVALID",
                DoctorStatus::Error,
                to_owned_string(
                    "Обнаружены некорректные security-лимиты (нулевые/отрицательные значения).",
                ),
            ),
        );
    }
    assert(checks@.drop_last() =~= old(checks)@);
}

/// The check of the Prometheus endpoint that the service profile sets up.
pub fn prometheus_check(profile: &ServiceProfile) -> (c: DoctorCheck)
    ensures
        profile.observability.prometheus_enabled && trim(profile.observability.prometheus_path@).len()
            == 0 ==> c.code@ == "DOCTOR_CONFIG_INVALID"@ && c.status == DoctorStatus::Error,
        profile.observability.prometheus_enabled && trim(profile.observability.prometheus_path@).len()
            > 0 ==> c.code@ == "DOCTOR_PROMETHEUS_ENABLED"@ && c.status == DoctorStatus::Pass
            && c.message@ == "Prometheus endpoint включен: "@ + profile.observability.prometheus_path@,
        !profile.observability.prometheus_enabled ==> c.code@ == "DOCTOR_PROMETHEUS_DISABLED"@
            && c.status == DoctorStatus::Warn,
{
    let obs = &profile.observability;
    let blank = crate::text::str_is_blank(obs.prometheus_path.as_str());
    if obs.prometheus_enabled && blank {
        check(
            "DOCTOR_CONFIG_INVALID",
            DoctorStatus::Error,
            to_owned_string("Prometheus включен, но путь метрик пустой."),
        )
    } else if obs.prometheus_enabled {
        check(
            "DOCTOR_PROMETHEUS_ENABLED",
            DoctorStatus::Pass,
            concat("Prometheus endpoint включен: ", obs.prometheus_path.as_str()),
        )
    } else {
        check(
            "DOCTOR_PROMETHEUS_DISABLED",
            DoctorStatus::Warn,
            to_owned_string("Prometheus endpoint отключен в сервисном профиле."),
        )
    }
}

/// The check of an outside converter, by whether its command was found.
pub fn check_converter(title: &str, found: bool, checks: &mut Vec<DoctorCheck>)
    ensures
        final(checks)@.len() == old(checks)@.len() + 1,
        final(checks)@.drop_last() == old(checks)@,
        found ==> final(checks)@.last().code@ == "DOCTOR_CONVERTER_AVAILABLE"@
            && final(checks)@.last().status == DoctorStatus::Pass
            && final(checks)@.last().message@ == title@ + " доступен в PATH."@,
        !found ==> final(checks)@.last().code@ == "DOCTOR_CONVERTER_MISSING"@
            && final(checks)@.last().status == DoctorStatus::Warn
            && final(checks)@.last().message@ == title@ + " не найден в PATH."@,
{
    if found {
        checks.push(
            check(
                "DOCTOR_CONVERTER_AVAILABLE",
                DoctorStatus::Pass,
                concat(title, " доступен в PATH."),
            ),
        );
    } else {
        checks.push(
            check(
                "DOCTOR_CONVERTER_MISSING",
                DoctorStatus::Warn,
                concat(title, " не найден в PATH."),
            ),
        );
    }
    assert(checks@.drop_last() =~= old(checks)@);
}

/// The `ml` section's `triton` member, `Null` where there is none.
pub open spec fn triton_section(p: PipelineConfig) -> JsonValue {
    match json_get(p.pipeline.ml, "triton"@) {
        Some(v) => v,
        None => JsonValue::Null,
    }
}

/// Triton is to be probed: switched on, or named as the ML provider.
pub open spec fn triton_wanted(p: PipelineConfig) -> bool {
    bool_or(triton_section(p), "enabled"@, false) || lower_seq(str_or(p.pipeline.ml, "provider"@, "cpu"@))
        == "triton"@
}

/// Whether Triton is to be probed, and at which address; when it is not, the
/// warning that says it is switched off.
pub fn triton_plan(pipeline: &PipelineConfig) -> (r: Result<String, DoctorCheck>)
    ensures
        triton_wanted(*pipeline) ==> (r matches Ok(url) && url@ == str_or(
            triton_section(*pipeline),
            "url"@,
            "http://127.0.0.1:8000"@,
        )),
        !triton_wanted(*pipeline) ==> (r matches Err(c) && c.code@ == "DOCTOR_TRITON_DISABLED"@
            && c.status == DoctorStatus::Warn),
{
    let ml = &pipeline.pipeline.ml;
    let provider = crate::json::read_str(ml, "provider", "cpu");
    let null = JsonValue::Null;
    let triton = match ml.get("triton") {
        Some(t) => t,
        None => &null,
    };
    let enabled = crate::json::read_bool(triton, "enabled", false);
    let lowered = lower_chars(chars_of(provider.as_str()).as_slice());
    let is_triton = crate::classifier::chars_eq(lowered.as_slice(), "triton");
    if !enabled && !is_triton {
        return Err(
            check(
                "DOCTOR_TRITON_DISABLED",
                DoctorStatus::Warn,
                to_owned_string("Triton backend отключен в конфигурации."),
            ),
        );
    }
    Ok(crate::json::read_str(triton, "url", "http://127.0.0.1:8000"))
}

/// The check for a probe of Triton at `url`; `error` is why it failed, if it did.
pub fn triton_check(url: &str, error: Option<&str>) -> (c: DoctorCheck)
    ensures
        match error {
            None => c.code@ == "DOCTOR_TRITON_READY"@ && c.status == DoctorStatus::Pass
                && c.message@ == "Triton доступен: "@ + url@,
            Some(e) => c.code@ == "DOCTOR_TRITON_UNAVAILABLE"@ && c.status == DoctorStatus::Warn
                && c.message@ == "Triton недоступен ("@ + url@ + "): "@ + e@,
        },
{
    match error {
        None => check("DOCTOR_TRITON_READY", DoctorStatus::Pass, concat("Triton доступен: ", url)),
        Some(e) => {
            let mut v: Vec<char> = Vec::new();
            push_str_chars(&mut v, "Triton недоступен (");
            push_str_chars(&mut v, url);
            push_str_chars(&mut v, "): ");
            push_str_chars(&mut v, e);
            check("DOCTOR_TRITON_UNAVAILABLE", DoctorStatus::Warn, string_from_chars(v.as_slice()))
        },
    }
}

} // verus!
