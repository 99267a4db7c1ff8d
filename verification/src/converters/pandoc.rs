//! Converting between markup formats with Pandoc.

use vstd::prelude::*;
use crate::assets::{join_path, join_path_exec};
use crate::classifier::{chars_eq, lowered_extension, lowered_extension_chars};
use crate::config::{PipelineConfig, pipeline_converters_value};
use crate::converters::sandbox::{SandboxOptions, configured_sandbox, default_sandbox, sandbox_sizes_fit};
use crate::converters::traits::{ConversionError, ConversionTarget, ConvertedDocument, DocumentConverter};
use crate::json::{JsonValue, bool_or, json_get, str_or};
use crate::text::{chars_of, push_str_chars, string_from_chars, to_owned_string};

verus! {

#[derive(Debug)]
pub struct PandocConverter {
    pub binary: String,
    pub enabled: bool,
    pub sandbox: SandboxOptions,
}

/// The `converters.pandoc` section, `Null` where there is none.
pub open spec fn pandoc_section(config: PipelineConfig) -> JsonValue {
    match json_get(config.pipeline.converters, "pandoc"@) {
        Some(v) => v,
        None => JsonValue::Null,
    }
}

/// The conversions Pandoc is used for.
pub open spec fn pandoc_supports(ext: Seq<char>, target: ConversionTarget) -> bool {
    (ext == "rtf"@ && target == ConversionTarget::Html) || (ext == "rtf"@ && target
        == ConversionTarget::Markdown) || (ext == "md"@ && target == ConversionTarget::Html) || (ext
        == "html"@ && target == ConversionTarget::Markdown) || (ext == "docx"@ && target
        == ConversionTarget::Html)
}

/// Pandoc's writer for a target.
pub open spec fn pandoc_writer(target: ConversionTarget) -> Option<Seq<char>> {
    match target {
        ConversionTarget::Html => Some("html"@),
        ConversionTarget::Markdown => Some("gfm"@),
        _ => None,
    }
}

/// The code and message of the error that a failed run of Pandoc becomes.
pub open spec fn pandoc_run_error(code: Seq<char>, message: Seq<char>) -> (Seq<char>, Seq<char>) {
    if code == "EXTERNAL_COMMAND_TIMEOUT"@ {
        ("PANDOC_TIMEOUT"@, "Время ожидания Pandoc конвертации истекло."@)
    } else if code == "EXTERNAL_BINARY_NOT_FOUND"@ {
        ("PANDOC_NOT_AVAILABLE"@, "Pandoc не найден. Конвертация RTF через Pandoc невозможна."@)
    } else {
        ("PANDOC_CONVERSION_FAILED"@, "Ошибка конвертации через Pandoc: "@ + message)
    }
}

impl Default for PandocConverter {
    fn default() -> (c: Self)
        ensures
            c.binary@ == "pandoc"@,
            c.enabled,
            default_sandbox(c.sandbox),
    {
        PandocConverter {
            binary: to_owned_string("pandoc"),
            enabled: true,
            sandbox: SandboxOptions::default(),
        }
    }
}

impl PandocConverter {
    /// The converter as the pipeline configuration sets it up.
    pub fn from_pipeline_config(config: Option<&PipelineConfig>) -> (c: Self)
        requires
            sandbox_sizes_fit(config),
        ensures
            match config {
                Some(cfg) => {
                    &&& c.enabled == bool_or(pandoc_section(*cfg), "enabled"@, true)
                    &&& c.binary@ == str_or(pandoc_section(*cfg), "binary"@, "pandoc"@)
                },
                None => c.binary@ == "pandoc"@ && c.enabled,
            },
            configured_sandbox(config, c.sandbox),
    {
        let sandbox = SandboxOptions::from_pipeline_config(config);
        let cfg = match config {
            Some(c) => c,
            None => {
                return PandocConverter { binary: to_owned_string("pandoc"), enabled: true, sandbox };
            },
        };
        let null = JsonValue::Null;
        let pandoc = match pipeline_converters_value(cfg, "pandoc") {
            Some(v) => v,
            None => &null,
        };
        PandocConverter {
            binary: crate::json::read_str(pandoc, "binary", "pandoc"),
            enabled: crate::json::read_bool(pandoc, "enabled", true),
            sandbox,
        }
    }

    /// The Pandoc binary, given where the command was found on the search path
    /// (if it was).
    pub fn resolve_binary(&self, found: Option<String>) -> (r: Result<String, ConversionError>)
        ensures
            match found {
                Some(p) => r matches Ok(q) && q@ == p@,
                None => r matches Err(e) && e.code@ == "PANDOC_NOT_AVAILABLE"@
                    && e.message@ == "Pandoc не найден. Конвертация RTF через Pandoc невозможна."@,
            },
    {
        match found {
            Some(p) => Ok(p),
            None => Err(
                ConversionError::new(
                    "PANDOC_NOT_AVAILABLE",
                    to_owned_string("Pandoc не найден. Конвертация RTF через Pandoc невозможна."),
                ),
            ),
        }
    }

    pub fn supports(input_ext: &str, target: ConversionTarget) -> (r: bool)
        ensures
            r == pandoc_supports(input_ext@, target),
    {
        let e = chars_of(input_ext);
        let s = e.as_slice();
        match target {
            ConversionTarget::Html => chars_eq(s, "rtf") || chars_eq(s, "md") || chars_eq(s, "docx"),
            ConversionTarget::Markdown => chars_eq(s, "rtf") || chars_eq(s, "html"),
            _ => false,
        }
    }

    pub fn writer_for_target(target: ConversionTarget) -> (r: Option<&'static str>)
        ensures
            match pandoc_writer(target) {
                Some(w) => r.is_some() && r.unwrap()@ == w,
                None => r.is_none(),
            },
    {
        match target {
            ConversionTarget::Html => Some("html"),
            ConversionTarget::Markdown => Some("gfm"),
            _ => None,
        }
    }

    /// Where Pandoc writes its output: `converted.{ext}` in the output directory.
    pub fn output_path(out_dir: &str, target: ConversionTarget) -> (r: String)
        ensures
            r@ == join_path(out_dir@, "converted."@ + target.extension_of()),
    {
        let mut name: Vec<char> = Vec::new();
        push_str_chars(&mut name, "converted.");
        push_str_chars(&mut name, target.extension());
        let d = chars_of(out_dir);
        let p = join_path_exec(d.as_slice(), name.as_slice());
        string_from_chars(p.as_slice())
    }

    /// The arguments that run Pandoc: `input -t writer -o output`.
    pub fn command_args(input_file: &str, writer: &str, output_path: &str) -> (r: Vec<String>)
        ensures
            crate::text::views(r@) == seq![input_file@, "-t"@, writer@, "-o"@, output_path@],
    {
        let mut args: Vec<String> = Vec::new();
        args.push(to_owned_string(input_file));
        args.push(to_owned_string("-t"));
        args.push(to_owned_string(writer));
        args.push(to_owned_string("-o"));
        args.push(to_owned_string(output_path));
        proof {
            assert(crate::text::views(args@) =~= seq![input_file@, "-t"@, writer@, "-o"@, output_path@]);
        }
        args
    }

    /// The error that a failed run of the command becomes.
    pub fn run_error(err: &ConversionError) -> (e: ConversionError)
        ensures
            e.code@ == pandoc_run_error(err.code@, err.message@).0,
            e.message@ == pandoc_run_error(err.code@, err.message@).1,
    {
        let code = chars_of(err.code.as_str());
        if chars_eq(code.as_slice(), "EXTERNAL_COMMAND_TIMEOUT") {
            return ConversionError::new(
                "PANDOC_TIMEOUT",
                to_owned_string("Время ожидания Pandoc конвертации истекло."),
            );
        }
        if chars_eq(code.as_slice(), "EXTERNAL_BINARY_NOT_FOUND") {
            return ConversionError::new(
                "PANDOC_NOT_AVAILABLE",
                to_owned_string("Pandoc не найден. Конвертация RTF через Pandoc невозможна."),
            );
        }
        let mut m: Vec<char> = Vec::new();
        push_str_chars(&mut m, "Ошибка конвертации через Pandoc: ");
        push_str_chars(&mut m, err.message.as_str());
        ConversionError::new("PANDOC_CONVERSION_FAILED", string_from_chars(m.as_slice()))
    }

    /// The error when Pandoc ended without writing its output.
    pub fn output_missing() -> (e: ConversionError)
        ensures
            e.code@ == "PANDOC_OUTPUT_MISSING"@,
            e.message@ == "Pandoc завершился без ожидаемого выходного файла."@,
            e.recoverable,
    {
        ConversionError::new(
            "PANDOC_OUTPUT_MISSING",
            to_owned_string("Pandoc завершился без ожидаемого выходного файла."),
        )
    }

    /// The converted document found at `path` after a run of `duration_ms`.
    pub fn converted(&self, path: String, target: ConversionTarget, duration_ms: u64) -> (d: ConvertedDocument)
        ensures
            d.path@ == path@,
            d.target == target,
            d.mime_type@ == target.mime_of(),
            d.converter_name@ == "pandoc"@,
            d.duration_ms == duration_ms,
    {
        ConvertedDocument {
            path,
            target,
            mime_type: to_owned_string(target.mime_type()),
            converter_name: to_owned_string("pandoc"),
            duration_ms,
        }
    }
}

impl DocumentConverter for PandocConverter {
    fn name(&self) -> &'static str {
        "pandoc"
    }

    fn supports_conversion(&self, input_path: &str, target: ConversionTarget) -> (r: bool)
        ensures
            r == (self.enabled && pandoc_supports(lowered_extension(input_path@), target)),
    {
        if !self.enabled {
            return false;
        }
        let ext = string_from_chars(lowered_extension_chars(input_path).as_slice());
        Self::supports(ext.as_str(), target)
    }
}

} // verus!
