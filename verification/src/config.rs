//! The pipeline configuration, the format routing table and the service profile.

use vstd::prelude::*;
use crate::json::{JsonValue, json_get, refers_to};
use crate::text::push_str_chars;

verus! {

#[derive(Debug)]
pub struct PipelineConfig {
    pub pipeline: PipelineSection,
}

/// The `pipeline` section; each subsection is kept as the JSON it was written in
/// (`Null` where it is absent).
#[derive(Debug)]
pub struct PipelineSection {
    pub version: String,
    pub mode: String,
    pub limits: JsonValue,
    pub queues: JsonValue,
    pub timeouts_ms: JsonValue,
    pub rendering: JsonValue,
    pub performance: JsonValue,
    pub language: JsonValue,
    pub locale: JsonValue,
    pub pdf: JsonValue,
    pub ocr: JsonValue,
    pub ml: JsonValue,
    pub tables: JsonValue,
    pub formulas: JsonValue,
    pub layout: JsonValue,
    pub scanned_tables: JsonValue,
    pub debug: JsonValue,
    pub images: JsonValue,
    pub merge: JsonValue,
    pub chunking: JsonValue,
    pub office: JsonValue,
    pub presentation: JsonValue,
    pub legacy: JsonValue,
    pub converters: JsonValue,
    pub office_rendering: JsonValue,
    pub output: JsonValue,
}

/// `pipeline.pdf[key]`.
pub fn pipeline_pdf_value<'a>(config: &'a PipelineConfig, key: &str) -> (r: Option<&'a JsonValue>)
    ensures
        refers_to(r, json_get(config.pipeline.pdf, key@)),
{
    config.pipeline.pdf.get(key)
}

/// `pipeline.ocr[key]`.
pub fn pipeline_ocr_value<'a>(config: &'a PipelineConfig, key: &str) -> (r: Option<&'a JsonValue>)
    ensures
        refers_to(r, json_get(config.pipeline.ocr, key@)),
{
    config.pipeline.ocr.get(key)
}

/// `pipeline.performance[key]`.
pub fn pipeline_performance_value<'a>(config: &'a PipelineConfig, key: &str) -> (r: Option<&'a JsonValue>)
    ensures
        refers_to(r, json_get(config.pipeline.performance, key@)),
{
    config.pipeline.performance.get(key)
}

/// `pipeline.ml[key]`.
pub fn pipeline_ml_value<'a>(config: &'a PipelineConfig, key: &str) -> (r: Option<&'a JsonValue>)
    ensures
        refers_to(r, json_get(config.pipeline.ml, key@)),
{
    config.pipeline.ml.get(key)
}

/// `pipeline.merge[key]`.
pub fn pipeline_merge_value<'a>(config: &'a PipelineConfig, key: &str) -> (r: Option<&'a JsonValue>)
    ensures
        refers_to(r, json_get(config.pipeline.merge, key@)),
{
    config.pipeline.merge.get(key)
}

/// `pipeline.language[key]`.
pub fn pipeline_language_value<'a>(config: &'a PipelineConfig, key: &str) -> (r: Option<&'a JsonValue>)
    ensures
        refers_to(r, json_get(config.pipeline.language, key@)),
{
    config.pipeline.language.get(key)
}

/// `pipeline.locale[key]`.
pub fn pipeline_locale_value<'a>(config: &'a PipelineConfig, key: &str) -> (r: Option<&'a JsonValue>)
    ensures
        refers_to(r, json_get(config.pipeline.locale, key@)),
{
    config.pipeline.locale.get(key)
}

/// `pipeline.office[key]`.
pub fn pipeline_office_value<'a>(config: &'a PipelineConfig, key: &str) -> (r: Option<&'a JsonValue>)
    ensures
        refers_to(r, json_get(config.pipeline.office, key@)),
{
    config.pipeline.office.get(key)
}

/// `pipeline.presentation[key]`.
pub fn pipeline_presentation_value<'a>(config: &'a PipelineConfig, key: &str) -> (r: Option<&'a JsonValue>)
    ensures
        refers_to(r, json_get(config.pipeline.presentation, key@)),
{
    config.pipeline.presentation.get(key)
}

/// `pipeline.legacy[key]`.
pub fn pipeline_legacy_value<'a>(config: &'a PipelineConfig, key: &str) -> (r: Option<&'a JsonValue>)
    ensures
        refers_to(r, json_get(config.pipeline.legacy, key@)),
{
    config.pipeline.legacy.get(key)
}

/// `pipeline.converters[key]`.
pub fn pipeline_converters_value<'a>(config: &'a PipelineConfig, key: &str) -> (r: Option<&'a JsonValue>)
    ensures
        refers_to(r, json_get(config.pipeline.converters, key@)),
{
    config.pipeline.converters.get(key)
}

/// `pipeline.layout[key]`.
pub fn pipeline_layout_value<'a>(config: &'a PipelineConfig, key: &str) -> (r: Option<&'a JsonValue>)
    ensures
        refers_to(r, json_get(config.pipeline.layout, key@)),
{
    config.pipeline.layout.get(key)
}

/// `pipeline.scanned_tables[key]`.
pub fn pipeline_scanned_tables_value<'a>(config: &'a PipelineConfig, key: &str) -> (r: Option<&'a JsonValue>)
    ensures
        refers_to(r, json_get(config.pipeline.scanned_tables, key@)),
{
    config.pipeline.scanned_tables.get(key)
}

/// `pipeline.debug[key]`.
pub fn pipeline_debug_value<'a>(config: &'a PipelineConfig, key: &str) -> (r: Option<&'a JsonValue>)
    ensures
        refers_to(r, json_get(config.pipeline.debug, key@)),
{
    config.pipeline.debug.get(key)
}

/// The subsection of the pipeline section named `name` (as the section is written
/// in JSON); the string members `version` and `mode` hold no subsections.
pub open spec fn section_named(p: PipelineSection, name: Seq<char>) -> Option<JsonValue> {
    if name == "limits"@ {
        Some(p.limits)
    } else if name == "queues"@ {
        Some(p.queues)
    } else if name == "timeouts_ms"@ {
        Some(p.timeouts_ms)
    } else if name == "rendering"@ {
        Some(p.rendering)
    } else if name == "performance"@ {
        Some(p.performance)
    } else if name == "language"@ {
        Some(p.language)
    } else if name == "locale"@ {
        Some(p.locale)
    } else if name == "pdf"@ {
        Some(p.pdf)
    } else if name == "ocr"@ {
        Some(p.ocr)
    } else if name == "ml"@ {
        Some(p.ml)
    } else if name == "tables"@ {
        Some(p.tables)
    } else if name == "formulas"@ {
        Some(p.formulas)
    } else if name == "layout"@ {
        Some(p.layout)
    } else if name == "scanned_tables"@ {
        Some(p.scanned_tables)
    } else if name == "debug"@ {
        Some(p.debug)
    } else if name == "images"@ {
        Some(p.images)
    } else if name == "merge"@ {
        Some(p.merge)
    } else if name == "chunking"@ {
        Some(p.chunking)
    } else if name == "office"@ {
        Some(p.office)
    } else if name == "presentation"@ {
        Some(p.presentation)
    } else if name == "legacy"@ {
        Some(p.legacy)
    } else if name == "converters"@ {
        Some(p.converters)
    } else if name == "office_rendering"@ {
        Some(p.office_rendering)
    } else if name == "output"@ {
        Some(p.output)
    } else {
        None
    }
}

fn section_exec<'a>(p: &'a PipelineSection, name: &str) -> (r: Option<&'a JsonValue>)
    ensures
        refers_to(r, section_named(*p, name@)),
{
    let n = crate::text::chars_of(name);
    let s = n.as_slice();
    if crate::classifier::chars_eq(s, "limits") {
        Some(&p.limits)
    } else if crate::classifier::chars_eq(s, "queues") {
        Some(&p.queues)
    } else if crate::classifier::chars_eq(s, "timeouts_ms") {
        Some(&p.timeouts_ms)
    } else if crate::classifier::chars_eq(s, "rendering") {
        Some(&p.rendering)
    } else if crate::classifier::chars_eq(s, "performance") {
        Some(&p.performance)
    } else if crate::classifier::chars_eq(s, "language") {
        Some(&p.language)
    } else if crate::classifier::chars_eq(s, "locale") {
        Some(&p.locale)
    } else if crate::classifier::chars_eq(s, "pdf") {
        Some(&p.pdf)
    } else if crate::classifier::chars_eq(s, "ocr") {
        Some(&p.ocr)
    } else if crate::classifier::chars_eq(s, "ml") {
        Some(&p.ml)
    } else if crate::classifier::chars_eq(s, "tables") {
        Some(&p.tables)
    } else if crate::classifier::chars_eq(s, "formulas") {
        Some(&p.formulas)
    } else if crate::classifier::chars_eq(s, "layout") {
        Some(&p.layout)
    } else if crate::classifier::chars_eq(s, "scanned_tables") {
        Some(&p.scanned_tables)
    } else if crate::classifier::chars_eq(s, "debug") {
        Some(&p.debug)
    } else if crate::classifier::chars_eq(s, "images") {
        Some(&p.images)
    } else if crate::classifier::chars_eq(s, "merge") {
        Some(&p.merge)
    } else if crate::classifier::chars_eq(s, "chunking") {
        Some(&p.chunking)
    } else if crate::classifier::chars_eq(s, "office") {
        Some(&p.office)
    } else if crate::classifier::chars_eq(s, "presentation") {
        Some(&p.presentation)
    } else if crate::classifier::chars_eq(s, "legacy") {
        Some(&p.legacy)
    } else if crate::classifier::chars_eq(s, "converters") {
        Some(&p.converters)
    } else if crate::classifier::chars_eq(s, "office_rendering") {
        Some(&p.office_rendering)
    } else if crate::classifier::chars_eq(s, "output") {
        Some(&p.output)
    } else {
        None
    }
}

/// The value at `path` under `v`.
pub open spec fn json_path(v: JsonValue, path: Seq<Seq<char>>) -> Option<JsonValue>
    decreases path.len(),
{
    if path.len() == 0 {
        Some(v)
    } else {
        match json_get(v, path[0]) {
            Some(n) => json_path(n, path.drop_first()),
            None => None,
        }
    }
}

/// The value at `path` in the pipeline section, its first segment naming the
/// subsection.
pub open spec fn config_path(config: Option<&PipelineConfig>, path: Seq<Seq<char>>) -> Option<JsonValue> {
    match config {
        Some(c) => if path.len() == 0 {
            None
        } else {
            match section_named(c.pipeline, path[0]) {
                Some(s) => json_path(s, path.drop_first()),
                None => None,
            }
        },
        None => None,
    }
}

/// The boolean at `path` in the pipeline section, or `default`.
pub open spec fn config_bool(config: Option<&PipelineConfig>, path: Seq<Seq<char>>, default: bool) -> bool {
    match config_path(config, path) {
        Some(JsonValue::Bool(b)) => b,
        _ => default,
    }
}

/// The unsigned integer at `path` in the pipeline section, or `default`.
pub open spec fn config_u64(config: Option<&PipelineConfig>, path: Seq<Seq<char>>, default: u64) -> u64 {
    match config_path(config, path) {
        Some(JsonValue::Number(n)) => match n.as_u64 {
            Some(v) => v,
            None => default,
        },
        _ => default,
    }
}

/// The number at `path` in the pipeline section in thousandths, or `default`.
pub open spec fn config_milli(config: Option<&PipelineConfig>, path: Seq<Seq<char>>, default: i64) -> i64 {
    match config_path(config, path) {
        Some(JsonValue::Number(n)) => match n.milli {
            Some(v) => v,
            None => default,
        },
        _ => default,
    }
}

fn config_lookup<'a>(config: Option<&'a PipelineConfig>, path: &[&str]) -> (r: Option<&'a JsonValue>)
    ensures
        refers_to(r, config_path(config, path@.map_values(|s: &str| s@))),
{
    let ghost ps = path@.map_values(|s: &str| s@);
    let cfg = match config {
        Some(c) => c,
        None => return None,
    };
    if path.len() == 0 {
        return None;
    }
    let mut cursor: &JsonValue = match section_exec(&cfg.pipeline, path[0]) {
        Some(s) => s,
        None => return None,
    };
    let mut i: usize = 1;
    while i < path.len()
        invariant
            1 <= i <= path@.len(),
            ps == path@.map_values(|s: &str| s@),
            config == Some(cfg),
            section_named(cfg.pipeline, ps[0]) is Some,
            json_path(section_named(cfg.pipeline, ps[0]).unwrap(), ps.drop_first()) == json_path(
                *cursor,
                ps.skip(i as int),
            ),
        decreases path@.len() - i,
    {
        proof {
            assert(ps.skip(i as int).drop_first() =~= ps.skip(i + 1));
            assert(ps.skip(i as int)[0] == path@[i as int]@);
        }
        cursor = match cursor.get(path[i]) {
            Some(n) => n,
            None => {
                proof {
                    assert(json_path(*cursor, ps.skip(i as int)) == None::<JsonValue>);
                    assert(config_path(config, ps) == json_path(
                        section_named(cfg.pipeline, ps[0]).unwrap(),
                        ps.drop_first(),
                    ));
                }
                return None;
            },
        };
        i = i + 1;
    }
    proof {
        assert(ps.drop_first() =~= ps.skip(1));
        assert(ps.skip(i as int) =~= Seq::<Seq<char>>::empty());
    }
    Some(cursor)
}

/// The boolean at `path` in the pipeline section, or `default`.
pub fn bool_opt(config: Option<&PipelineConfig>, path: &[&str], default: bool) -> (r: bool)
    ensures
        r == config_bool(config, path@.map_values(|s: &str| s@), default),
{
    match config_lookup(config, path) {
        Some(v) => match v.as_bool() {
            Some(b) => b,
            None => default,
        },
        None => default,
    }
}

/// The number at `path` in the pipeline section in thousandths, or `default`.
pub fn milli_opt(config: Option<&PipelineConfig>, path: &[&str], default: i64) -> (r: i64)
    ensures
        r == config_milli(config, path@.map_values(|s: &str| s@), default),
{
    match config_lookup(config, path) {
        Some(v) => match v.as_milli() {
            Some(n) => n,
            None => default,
        },
        None => default,
    }
}

/// The unsigned integer at `path` in the pipeline section, or `default`.
pub fn u64_opt(config: Option<&PipelineConfig>, path: &[&str], default: u64) -> (r: u64)
    ensures
        r == config_u64(config, path@.map_values(|s: &str| s@), default),
{
    match config_lookup(config, path) {
        Some(v) => match v.as_u64() {
            Some(n) => n,
            None => default,
        },
        None => default,
    }
}

/// How documents of one kind are routed: which stages and tools handle them.
#[derive(Debug)]
pub struct RoutingRule {
    pub extensions: Vec<String>,
    pub mime_types: Vec<String>,
    pub primary_stages: Vec<String>,
    pub fallback_stages: Vec<String>,
    /// The tools of each stage, by stage name.
    pub tools: Vec<(String, Vec<String>)>,
}

/// The routing rules, by document kind.
#[derive(Debug)]
pub struct FormatRoutingConfig {
    pub routing: Vec<(String, RoutingRule)>,
}

#[derive(Debug)]
pub struct ServiceConfig {
    pub enabled: bool,
    pub host: String,
    pub port: u16,
    pub locale: String,
    pub default_language: String,
    pub max_concurrent_jobs: usize,
    pub job_queue_capacity: usize,
}

#[derive(Debug)]
pub struct StorageConfig {
    pub backend: String,
    pub input_dir: String,
    pub output_dir: String,
    pub metadata_backend: String,
    pub object_store_backend: String,
}

#[derive(Debug)]
pub struct SecurityConfig {
    pub max_file_size_mb: u64,
    pub max_pages_per_document: usize,
    pub max_extracted_assets_mb: u64,
    pub max_image_width_px: u32,
    pub max_image_height_px: u32,
    pub max_archive_entries: usize,
    pub max_archive_total_uncompressed_mb: u64,
    pub max_processing_time_sec: u64,
    pub allow_external_converters: bool,
    pub allow_network_for_converters: bool,
}

#[derive(Debug)]
pub struct ObservabilityConfig {
    pub tracing_enabled: bool,
    pub metrics_enabled: bool,
    pub prometheus_enabled: bool,
    pub prometheus_path: String,
}

#[derive(Debug)]
pub struct AuthProfile {
    pub enabled: bool,
    pub dev_token_env: String,
}

impl Default for AuthProfile {
    fn default() -> (r: Self)
        ensures
            !r.enabled,
            r.dev_token_env@ == "DOC_PARSER_DEV_TOKEN"@,
    {
        AuthProfile { enabled: false, dev_token_env: crate::text::to_owned_string("DOC_PARSER_DEV_TOKEN") }
    }
}

#[derive(Debug)]
pub struct ServiceProfile {
    pub service: ServiceConfig,
    pub storage: StorageConfig,
    pub security: SecurityConfig,
    pub observability: ObservabilityConfig,
    pub auth: AuthProfile,
}

/// Where the profile called `name` is kept: `configs/profiles/{name}.jsonc`, or
/// `{name}.jsonc` itself where the name is an absolute path, as joining paths does.
pub open spec fn profile_path(name: Seq<char>) -> Seq<char> {
    if name.len() > 0 && name[0] == '/' {
        name + ".jsonc"@
    } else {
        "configs/profiles/"@ + name + ".jsonc"@
    }
}

impl ServiceProfile {
    /// The path of the named profile among the bundled ones.
    pub fn default_profile_path(name: &str) -> (r: String)
        ensures
            r@ == profile_path(name@),
    {
        let mut v: Vec<char> = Vec::new();
        let chars = crate::text::chars_of(name);
        if !(chars.len() > 0 && chars[0] == '/') {
            push_str_chars(&mut v, "configs/profiles/");
        }
        push_str_chars(&mut v, name);
        push_str_chars(&mut v, ".jsonc");
        crate::text::string_from_chars(v.as_slice())
    }
}

} // verus!
