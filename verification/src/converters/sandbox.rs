//! The limits an outside converter runs under, and the working directory it gets.

use vstd::prelude::*;
use crate::assets::{join_path, join_path_exec};
use crate::config::{PipelineConfig, pipeline_converters_value};
use crate::converters::traits::ConversionError;
use crate::json::{JsonValue, bool_or, json_get, json_u64, u64_or};
use crate::text::{chars_of, string_from_chars, to_owned_string};

verus! {

#[derive(Debug)]
pub struct SandboxOptions {
    pub enabled: bool,
    pub timeout_secs: u64,
    pub max_output_bytes: usize,
    pub max_stderr_bytes: usize,
    pub use_isolated_temp_dir: bool,
    pub disable_network_best_effort: bool,
    pub cleanup_temp_dir: bool,
}

pub open spec fn default_sandbox(o: SandboxOptions) -> bool {
    &&& o.enabled
    &&& o.timeout_secs == 120
    &&& o.max_output_bytes == 512 * 1024 * 1024
    &&& o.max_stderr_bytes == 10 * 1024 * 1024
    &&& o.use_isolated_temp_dir
    &&& o.disable_network_best_effort
    &&& o.cleanup_temp_dir
}

/// The `converters.sandbox` section; a nested `sandbox` member stands for the
/// section where there is one.
pub open spec fn sandbox_section(config: PipelineConfig) -> Option<JsonValue> {
    match json_get(config.pipeline.converters, "sandbox"@) {
        Some(s) => match json_get(s, "sandbox"@) {
            Some(inner) => Some(inner),
            None => Some(s),
        },
        None => None,
    }
}

/// A size in megabytes read from `s[key]`, in bytes, or `default` bytes.
pub open spec fn mb_or(s: JsonValue, key: Seq<char>, default: int) -> int {
    match json_u64(json_get(s, key)) {
        Some(v) => v * 1024 * 1024,
        None => default,
    }
}

/// The sizes that the configuration gives fit in memory once read in bytes.
pub open spec fn sandbox_sizes_fit(config: Option<&PipelineConfig>) -> bool {
    match config {
        Some(c) => match sandbox_section(*c) {
            Some(s) => mb_or(s, "max_output_size_mb"@, 0) <= usize::MAX && mb_or(
                s,
                "max_stderr_size_mb"@,
                0,
            ) <= usize::MAX,
            None => true,
        },
        None => true,
    }
}

/// `o` is what the configuration sets, the defaults for what it leaves out.
pub open spec fn configured_sandbox(config: Option<&PipelineConfig>, o: SandboxOptions) -> bool {
    match config {
        Some(c) => match sandbox_section(*c) {
            Some(s) => {
                &&& o.enabled == bool_or(s, "enabled"@, true)
                &&& o.timeout_secs == u64_or(s, "timeout_sec"@, 120)
                &&& o.max_output_bytes == mb_or(s, "max_output_size_mb"@, 512int * 1024 * 1024)
                &&& o.max_stderr_bytes == mb_or(s, "max_stderr_size_mb"@, 10int * 1024 * 1024)
                &&& o.use_isolated_temp_dir == bool_or(s, "use_isolated_temp_dir"@, true)
                &&& o.disable_network_best_effort == bool_or(s, "disable_network_best_effort"@, true)
                &&& o.cleanup_temp_dir == bool_or(s, "cleanup_temp_dir"@, true)
            },
            None => default_sandbox(o),
        },
        None => default_sandbox(o),
    }
}

impl Default for SandboxOptions {
    fn default() -> (o: Self)
        ensures
            default_sandbox(o),
    {
        SandboxOptions {
            enabled: true,
            timeout_secs: 120,
            max_output_bytes: 512 * 1024 * 1024,
            max_stderr_bytes: 10 * 1024 * 1024,
            use_isolated_temp_dir: true,
            disable_network_best_effort: true,
            cleanup_temp_dir: true,
        }
    }
}

fn mb_to_bytes(s: &JsonValue, key: &str, default: usize) -> (r: usize)
    requires
        mb_or(*s, key@, default as int) <= usize::MAX,
    ensures
        r == mb_or(*s, key@, default as int),
{
    match s.get(key) {
        Some(v) => match v.as_u64() {
            Some(n) => {
                proof {
                    assert(n * 1024 * 1024 <= usize::MAX);
                }
                (n as usize) * 1024 * 1024
            },
            None => default,
        },
        None => default,
    }
}

/// Whether `s[key]`, read as megabytes, fits in bytes.
fn mb_fits(s: &JsonValue, key: &str) -> (b: bool)
    ensures
        b == (mb_or(*s, key@, 0) <= usize::MAX),
{
    match s.get(key) {
        Some(v) => match v.as_u64() {
            Some(n) => {
                let bytes: u128 = (n as u128) * 1024 * 1024;
                bytes <= usize::MAX as u128
            },
            None => true,
        },
        None => true,
    }
}

/// Whether the sandbox sizes of the configuration fit in bytes (see
/// [`sandbox_sizes_fit`]).
pub fn sandbox_sizes_ok(config: Option<&PipelineConfig>) -> (b: bool)
    ensures
        b == sandbox_sizes_fit(config),
{
    let config = match config {
        Some(c) => c,
        None => return true,
    };
    let section = match pipeline_converters_value(config, "sandbox") {
        Some(s) => s,
        None => return true,
    };
    let s = match section.get("sandbox") {
        Some(inner) => inner,
        None => section,
    };
    mb_fits(s, "max_output_size_mb") && mb_fits(s, "max_stderr_size_mb")
}

impl SandboxOptions {
    /// The sandbox options that the pipeline configuration sets, the defaults for
    /// what it leaves out.
    pub fn from_pipeline_config(config: Option<&PipelineConfig>) -> (o: Self)
        requires
            sandbox_sizes_fit(config),
        ensures
            configured_sandbox(config, o),
    {
        let out = SandboxOptions::default();
        let config = match config {
            Some(c) => c,
            None => return out,
        };
        let section = match pipeline_converters_value(config, "sandbox") {
            Some(s) => s,
            None => return out,
        };
        let s = match section.get("sandbox") {
            Some(inner) => inner,
            None => section,
        };
        proof {
            assert(mb_or(*s, "max_output_size_mb"@, 512int * 1024 * 1024) <= usize::MAX);
            assert(mb_or(*s, "max_stderr_size_mb"@, 10int * 1024 * 1024) <= usize::MAX);
        }
        SandboxOptions {
            enabled: crate::json::read_bool(s, "enabled", true),
            timeout_secs: crate::json::read_u64(s, "timeout_sec", 120),
            max_output_bytes: mb_to_bytes(s, "max_output_size_mb", 512 * 1024 * 1024),
            max_stderr_bytes: mb_to_bytes(s, "max_stderr_size_mb", 10 * 1024 * 1024),
            use_isolated_temp_dir: crate::json::read_bool(s, "use_isolated_temp_dir", true),
            disable_network_best_effort: crate::json::read_bool(
                s,
                "disable_network_best_effort",
                true,
            ),
            cleanup_temp_dir: crate::json::read_bool(s, "cleanup_temp_dir", true),
        }
    }
}

/// The working directory of one conversion: its root, the copied input and the
/// directory the converter writes to.
#[derive(Debug)]
pub struct SandboxWorkspace {
    pub temp_dir: String,
    pub input_file: String,
    pub output_dir: String,
}

/// A converter runs only in an isolated temporary directory: without one the
/// workspace is refused.
pub fn check_sandbox(options: &SandboxOptions) -> (r: Result<(), ConversionError>)
    ensures
        r.is_ok() == options.use_isolated_temp_dir,
        r matches Err(e) ==> e.code@ == "EXTERNAL_TEMP_DIR_FAILED"@
            && e.message@ == "Sandbox без изолированного временного каталога не поддерживается."@,
{
    if !options.use_isolated_temp_dir {
        return Err(
            ConversionError::new(
                "EXTERNAL_TEMP_DIR_FAILED",
                to_owned_string("Sandbox без изолированного временного каталога не поддерживается."),
            ),
        );
    }
    Ok(())
}

/// The workspace laid out under `temp_dir`: the input copied there and an `out`
/// directory beside it.
pub fn workspace_in(temp_dir: &str, input_file: &str) -> (w: SandboxWorkspace)
    ensures
        w.temp_dir@ == temp_dir@,
        w.input_file@ == input_file@,
        w.output_dir@ == join_path(temp_dir@, "out"@),
{
    let t = chars_of(temp_dir);
    let out = chars_of("out");
    let o = join_path_exec(t.as_slice(), out.as_slice());
    SandboxWorkspace {
        temp_dir: to_owned_string(temp_dir),
        input_file: to_owned_string(input_file),
        output_dir: string_from_chars(o.as_slice()),
    }
}

} // verus!
