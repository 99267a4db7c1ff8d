//! Apache Tika as a last resort for text and HTML.

use vstd::prelude::*;
use crate::classifier::chars_eq;
use crate::config::{PipelineConfig, pipeline_converters_value};
use crate::converters::traits::{
    ConversionError, ConversionStageRecord, ConversionTarget, ConvertedDocument, DocumentConverter,
    ExtractionContext,
};
use crate::json::{JsonValue, bool_or, json_get, str_or};
use crate::text::{chars_of, lower_chars, lower_seq, to_owned_string};

verus! {

#[derive(Clone, Copy, Debug, PartialEq, Eq, Structural)]
pub enum TikaMode {
    Disabled,
    Server,
    Jar,
}

#[derive(Debug)]
pub struct TikaConverter {
    pub enabled: bool,
    pub mode: TikaMode,
}

/// The `converters.tika` section, `Null` where there is none.
pub open spec fn tika_section(config: PipelineConfig) -> JsonValue {
    match json_get(config.pipeline.converters, "tika"@) {
        Some(v) => v,
        None => JsonValue::Null,
    }
}

/// The mode named (in any ASCII case); `server_or_jar` means the server.
pub open spec fn tika_mode_named(name: Seq<char>) -> TikaMode {
    let n = lower_seq(name);
    if n == "server"@ || n == "server_or_jar"@ {
        TikaMode::Server
    } else if n == "jar"@ {
        TikaMode::Jar
    } else {
        TikaMode::Disabled
    }
}

impl Default for TikaConverter {
    fn default() -> (c: Self)
        ensures
            !c.enabled,
            c.mode == TikaMode::Disabled,
    {
        TikaConverter { enabled: false, mode: TikaMode::Disabled }
    }
}

impl TikaConverter {
    pub fn from_pipeline_config(config: Option<&PipelineConfig>) -> (c: Self)
        ensures
            match config {
                Some(cfg) => {
                    &&& c.enabled == bool_or(tika_section(*cfg), "enabled"@, false)
                    &&& c.mode == tika_mode_named(str_or(tika_section(*cfg), "mode"@, "disabled"@))
                },
                None => !c.enabled && c.mode == TikaMode::Disabled,
            },
    {
        let cfg = match config {
            Some(c) => c,
            None => return TikaConverter::default(),
        };
        let null = JsonValue::Null;
        let tika = match pipeline_converters_value(cfg, "tika") {
            Some(v) => v,
            None => &null,
        };
        let enabled = crate::json::read_bool(tika, "enabled", false);
        let name = crate::json::read_str(tika, "mode", "disabled");
        let lowered = lower_chars(chars_of(name.as_str()).as_slice());
        let n = lowered.as_slice();
        let mode = if chars_eq(n, "server") || chars_eq(n, "server_or_jar") {
            TikaMode::Server
        } else if chars_eq(n, "jar") {
            TikaMode::Jar
        } else {
            TikaMode::Disabled
        };
        TikaConverter { enabled, mode }
    }

    /// Tries the conversion. Tika is not wired up in any mode yet, so this always
    /// fails: `TIKA_DISABLED` when it is switched off, `TIKA_NOT_CONFIGURED`
    /// otherwise. The attempt is recorded as a step with a warning.
    pub fn convert(&self, target: ConversionTarget, context: &mut ExtractionContext) -> (r: Result<
        ConvertedDocument,
        ConversionError,
    >)
        ensures
            final(context).stage_records@.len() == old(context).stage_records@.len() + 1,
            final(context).stage_records@.last().name@ == "external_command_start"@,
            final(context).stage_records@.last().status@ == "warning"@,
            final(context).stage_records@.last().tool@ == "tika"@,
            final(context).stage_records@.drop_last() == old(context).stage_records@,
            final(context).warnings == old(context).warnings,
            final(context).errors == old(context).errors,
            r matches Err(e) && e.code@ == (if !self.enabled || self.mode == TikaMode::Disabled {
                "TIKA_DISABLED"@
            } else {
                "TIKA_NOT_CONFIGURED"@
            }),
    {
        context.push_stage(ConversionStageRecord::warning("external_command_start", "tika"));
        assert(context.stage_records@.drop_last() =~= old(context).stage_records@);
        if !self.enabled || self.mode == TikaMode::Disabled {
            return Err(
                ConversionError::new(
                    "TIKA_DISABLED",
                    to_owned_string(
                        "Apache Tika отключен в конфигурации. Резервная конвертация недоступна.",
                    ),
                ),
            );
        }
        let _ = target;
        Err(
            ConversionError::new(
                "TIKA_NOT_CONFIGURED",
                to_owned_string(
                    "Apache Tika пока не сконфигурирован для текущего режима. Требуется дополнительная настройка.",
                ),
            ),
        )
    }
}

impl DocumentConverter for TikaConverter {
    fn name(&self) -> &'static str {
        "tika"
    }

    fn supports_conversion(&self, _input_path: &str, target: ConversionTarget) -> (r: bool)
        ensures
            r == (target == ConversionTarget::Text || target == ConversionTarget::Html),
    {
        match target {
            ConversionTarget::Text | ConversionTarget::Html => true,
            _ => false,
        }
    }
}

} // verus!
