//! Converting office documents with LibreOffice (`soffice --convert-to`).

use vstd::prelude::*;
use crate::classifier::{chars_eq, lowered_extension, lowered_extension_chars};
use crate::config::{PipelineConfig, pipeline_converters_value};
use crate::converters::sandbox::{SandboxOptions, sandbox_sizes_fit};
use crate::converters::traits::{ConversionError, ConversionTarget, ConvertedDocument, DocumentConverter};
use crate::json::{JsonValue, bool_or, json_get, str_or};
use crate::text::{lower_seq, push_str_chars, string_from_chars, to_owned_string};

verus! {

#[derive(Debug)]
pub struct LibreOfficeConverter {
    pub binary: String,
    pub headless: bool,
    pub sandbox: SandboxOptions,
    pub enabled: bool,
}

/// The `converters.libreoffice` section, `Null` where there is none.
pub open spec fn libreoffice_section(config: PipelineConfig) -> JsonValue {
    match json_get(config.pipeline.converters, "libreoffice"@) {
        Some(v) => v,
        None => JsonValue::Null,
    }
}

/// The input extensions LibreOffice converts.
pub open spec fn libreoffice_input(ext: Seq<char>) -> bool {
    ext == "doc"@ || ext == "rtf"@ || ext == "docx"@ || ext == "pptx"@ || ext == "xlsx"@
}

/// The `--convert-to` format for a target.
pub open spec fn libreoffice_format(target: ConversionTarget) -> Option<Seq<char>> {
    match target {
        ConversionTarget::Docx => Some("docx"@),
        ConversionTarget::Pdf => Some("pdf"@),
        ConversionTarget::Html => Some("html"@),
        _ => None,
    }
}

/// The code and message of the error that a failed run of LibreOffice becomes.
pub open spec fn libreoffice_run_error(code: Seq<char>, message: Seq<char>) -> (Seq<char>, Seq<char>) {
    if code == "EXTERNAL_COMMAND_TIMEOUT"@ {
        ("LIBREOFFICE_TIMEOUT"@, "Время ожидания LibreOffice конвертации истекло."@)
    } else if code == "EXTERNAL_BINARY_NOT_FOUND"@ {
        (
            "LIBREOFFICE_NOT_AVAILABLE"@,
            "LibreOffice не найден. Конвертация legacy-документа невозможна."@,
        )
    } else {
        ("LIBREOFFICE_CONVERSION_FAILED"@, "Ошибка конвертации через LibreOffice: "@ + message)
    }
}

/// The arguments of the LibreOffice command.
pub open spec fn libreoffice_args(headless: bool, format: Seq<char>, out_dir: Seq<char>, input: Seq<char>) -> Seq<Seq<char>> {
    let rest = seq!["--convert-to"@, format, "--outdir"@, out_dir, input];
    if headless {
        seq!["--headless"@] + rest
    } else {
        rest
    }
}

/// The first of `files` whose extension is `ext`, in any ASCII case.
pub open spec fn first_with_extension(files: Seq<Seq<char>>, ext: Seq<char>) -> Option<int>
    decreases files.len(),
{
    if files.len() == 0 {
        None
    } else if lowered_extension(files[0]) == lower_seq(ext) && lowered_extension(files[0]).len() > 0 {
        Some(0)
    } else {
        match first_with_extension(files.drop_first(), ext) {
            Some(i) => Some(i + 1),
            None => None,
        }
    }
}

impl Default for LibreOfficeConverter {
    fn default() -> (c: Self)
        ensures
            c.binary@ == "soffice"@,
            c.headless,
            crate::converters::sandbox::default_sandbox(c.sandbox),
            c.enabled,
    {
        LibreOfficeConverter {
            binary: to_owned_string("soffice"),
            headless: true,
            sandbox: SandboxOptions::default(),
            enabled: true,
        }
    }
}

impl LibreOfficeConverter {
    /// The converter as the pipeline configuration sets it up.
    pub fn from_pipeline_config(config: Option<&PipelineConfig>) -> (c: Self)
        requires
            sandbox_sizes_fit(config),
        ensures
            match config {
                Some(cfg) => {
                    &&& c.enabled == bool_or(libreoffice_section(*cfg), "enabled"@, true)
                    &&& c.binary@ == str_or(libreoffice_section(*cfg), "binary"@, "soffice"@)
                    &&& c.headless == bool_or(libreoffice_section(*cfg), "headless"@, true)
                },
                None => c.binary@ == "soffice"@ && c.headless && c.enabled,
            },
            crate::converters::sandbox::configured_sandbox(config, c.sandbox),
    {
        let sandbox = SandboxOptions::from_pipeline_config(config);
        let cfg = match config {
            Some(c) => c,
            None => {
                return LibreOfficeConverter {
                    binary: to_owned_string("soffice"),
                    headless: true,
                    sandbox,
                    enabled: true,
                };
            },
        };
        let null = JsonValue::Null;
        let libre = match pipeline_converters_value(cfg, "libreoffice") {
            Some(v) => v,
            None => &null,
        };
        LibreOfficeConverter {
            binary: crate::json::read_str(libre, "binary", "soffice"),
            headless: crate::json::read_bool(libre, "headless", true),
            sandbox,
            enabled: crate::json::read_bool(libre, "enabled", true),
        }
    }

    /// The LibreOffice binary, given where the command was found on the search
    /// path (if it was).
    pub fn resolve_binary(&self, found: Option<String>) -> (r: Result<String, ConversionError>)
        ensures
            match found {
                Some(p) => r matches Ok(q) && q@ == p@,
                None => r matches Err(e) && e.code@ == "LIBREOFFICE_NOT_AVAILABLE"@
                    && e.message@ == "LibreOffice не найден. Конвертация legacy-документа невозможна."@,
            },
    {
        match found {
            Some(p) => Ok(p),
            None => Err(
                ConversionError::new(
                    "LIBREOFFICE_NOT_AVAILABLE",
                    to_owned_string("LibreOffice не найден. Конвертация legacy-документа невозможна."),
                ),
            ),
        }
    }

    pub fn supports_extension(ext: &str) -> (r: bool)
        ensures
            r == libreoffice_input(ext@),
    {
        let e = crate::text::chars_of(ext);
        let s = e.as_slice();
        chars_eq(s, "doc") || chars_eq(s, "rtf") || chars_eq(s, "docx") || chars_eq(s, "pptx")
            || chars_eq(s, "xlsx")
    }

    pub fn format_for_target(target: ConversionTarget) -> (r: Option<&'static str>)
        ensures
            match libreoffice_format(target) {
                Some(f) => r.is_some() && r.unwrap()@ == f,
                None => r.is_none(),
            },
    {
        match target {
            ConversionTarget::Docx => Some("docx"),
            ConversionTarget::Pdf => Some("pdf"),
            ConversionTarget::Html => Some("html"),
            _ => None,
        }
    }

    /// The format LibreOffice converts to for `target`; Markdown and plain text it
    /// cannot produce.
    pub fn output_format(target: ConversionTarget) -> (r: Result<&'static str, ConversionError>)
        ensures
            match libreoffice_format(target) {
                Some(f) => r matches Ok(g) && g@ == f,
                None => r matches Err(e) && e.code@ == "LIBREOFFICE_CONVERSION_FAILED"@
                    && e.message@ == "LibreOffice не поддерживает цель конвертации '"@ + target.name_of() + "'."@
                    && e.recoverable,
            },
    {
        match Self::format_for_target(target) {
            Some(f) => Ok(f),
            None => {
                let mut m: Vec<char> = Vec::new();
                push_str_chars(&mut m, "LibreOffice не поддерживает цель конвертации '");
                push_str_chars(&mut m, target.as_str());
                push_str_chars(&mut m, "'.");
                Err(ConversionError::new("LIBREOFFICE_CONVERSION_FAILED", string_from_chars(m.as_slice())))
            },
        }
    }

    /// What a conversion starts from, in the order it checks them: the binary, given
    /// where the command was found (see [`Self::resolve_binary`]), then the output
    /// format for `target` (see [`Self::output_format`]).
    pub fn plan_conversion(&self, found: Option<String>, target: ConversionTarget) -> (r: Result<
        (String, &'static str),
        ConversionError,
    >)
        ensures
            match found {
                None => r matches Err(e) && e.code@ == "LIBREOFFICE_NOT_AVAILABLE"@
                    && e.message@ == "LibreOffice не найден. Конвертация legacy-документа невозможна."@,
                Some(p) => match libreoffice_format(target) {
                    Some(f) => r matches Ok(pf) && pf.0@ == p@ && pf.1@ == f,
                    None => r matches Err(e) && e.code@ == "LIBREOFFICE_CONVERSION_FAILED"@
                        && e.message@ == "LibreOffice не поддерживает цель конвертации '"@ + target.name_of() + "'."@,
                },
            },
    {
        let binary = match self.resolve_binary(found) {
            Ok(b) => b,
            Err(e) => return Err(e),
        };
        match Self::output_format(target) {
            Ok(f) => Ok((binary, f)),
            Err(e) => Err(e),
        }
    }

    /// The arguments that run LibreOffice on `input_file`, writing to `out_dir`.
    pub fn command_args(&self, format: &str, out_dir: &str, input_file: &str) -> (r: Vec<String>)
        ensures
            crate::text::views(r@) == libreoffice_args(self.headless, format@, out_dir@, input_file@),
    {
        let mut args: Vec<String> = Vec::new();
        if self.headless {
            args.push(to_owned_string("--headless"));
        }
        args.push(to_owned_string("--convert-to"));
        args.push(to_owned_string(format));
        args.push(to_owned_string("--outdir"));
        args.push(to_owned_string(out_dir));
        args.push(to_owned_string(input_file));
        proof {
            assert(crate::text::views(args@) =~= libreoffice_args(
                self.headless,
                format@,
                out_dir@,
                input_file@,
            ));
        }
        args
    }

    /// The error that a failed run of the command becomes.
    pub fn run_error(err: &ConversionError) -> (e: ConversionError)
        ensures
            e.code@ == libreoffice_run_error(err.code@, err.message@).0,
            e.message@ == libreoffice_run_error(err.code@, err.message@).1,
    {
        let code = crate::text::chars_of(err.code.as_str());
        if chars_eq(code.as_slice(), "EXTERNAL_COMMAND_TIMEOUT") {
            return ConversionError::new(
                "LIBREOFFICE_TIMEOUT",
                to_owned_string("Время ожидания LibreOffice конвертации истекло."),
            );
        }
        if chars_eq(code.as_slice(), "EXTERNAL_BINARY_NOT_FOUND") {
            return ConversionError::new(
                "LIBREOFFICE_NOT_AVAILABLE",
                to_owned_string("LibreOffice не найден. Конвертация legacy-документа невозможна."),
            );
        }
        let mut m: Vec<char> = Vec::new();
        crate::text::push_str_chars(&mut m, "Ошибка конвертации через LibreOffice: ");
        crate::text::push_str_chars(&mut m, err.message.as_str());
        ConversionError::new(
            "LIBREOFFICE_CONVERSION_FAILED",
            crate::text::string_from_chars(m.as_slice()),
        )
    }

    /// The file LibreOffice wrote: the first in the output directory with the
    /// target's extension.
    pub fn pick_output(files: &Vec<String>, target: ConversionTarget) -> (r: Result<usize, ConversionError>)
        requires
            forall|i: int| 0 <= i < files@.len() ==> (#[trigger] files@[i])@.len() < 0x7fff_ffff_ffff_ffff,
        ensures
            match first_with_extension(crate::text::views(files@), target.extension_of()) {
                Some(i) => r matches Ok(k) && k as int == i,
                None => r matches Err(e) && e.code@ == "LIBREOFFICE_OUTPUT_MISSING"@,
            },
    {
        let ext = target.extension();
        let mut i: usize = 0;
        assert(crate::text::views(files@).skip(0) =~= crate::text::views(files@));
        while i < files.len()
            invariant
                i <= files@.len(),
                ext@ == target.extension_of(),
                forall|j: int| 0 <= j < files@.len() ==> (#[trigger] files@[j])@.len() < 0x7fff_ffff_ffff_ffff,
                first_with_extension(crate::text::views(files@), ext@) == match first_with_extension(
                    crate::text::views(files@).skip(i as int),
                    ext@,
                ) {
                    Some(k) => Some(k + i),
                    None => None,
                },
            decreases files@.len() - i,
        {
            let fe = lowered_extension_chars(files[i].as_str());
            let te = crate::text::lower_chars(crate::text::chars_of(ext).as_slice());
            proof {
                let rest = crate::text::views(files@).skip(i as int);
                assert(rest[0] == files@[i as int]@);
                assert(rest.drop_first() =~= crate::text::views(files@).skip(i + 1));
            }
            if fe.len() > 0 && crate::text::chars_equal(fe.as_slice(), te.as_slice()) {
                return Ok(i);
            }
            i = i + 1;
        }
        proof {
            assert(crate::text::views(files@).skip(i as int).len() == 0);
        }
        Err(
            ConversionError::new(
                "LIBREOFFICE_OUTPUT_MISSING",
                to_owned_string("LibreOffice завершился без выходного файла ожидаемого формата."),
            ),
        )
    }

    /// The converted document found at `path` after a run of `duration_ms`.
    pub fn converted(&self, path: String, target: ConversionTarget, duration_ms: u64) -> (d: ConvertedDocument)
        ensures
            d.path@ == path@,
            d.target == target,
            d.mime_type@ == target.mime_of(),
            d.converter_name@ == "libreoffice"@,
            d.duration_ms == duration_ms,
    {
        ConvertedDocument {
            path,
            target,
            mime_type: to_owned_string(target.mime_type()),
            converter_name: to_owned_string("libreoffice"),
            duration_ms,
        }
    }
}

impl DocumentConverter for LibreOfficeConverter {
    fn name(&self) -> &'static str {
        "libreoffice"
    }

    fn supports_conversion(&self, input_path: &str, target: ConversionTarget) -> (r: bool)
        ensures
            r == (self.enabled && libreoffice_input(lowered_extension(input_path@))
                && libreoffice_format(target).is_some()),
    {
        if !self.enabled {
            return false;
        }
        let ext = crate::text::string_from_chars(lowered_extension_chars(input_path).as_slice());
        Self::supports_extension(ext.as_str()) && Self::format_for_target(target).is_some()
    }
}

} // verus!
