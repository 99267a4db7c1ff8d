//! Page layout: region types, detectors, reading order and running headers and
//! footers.

pub mod detectors;
pub mod headers_footers;
pub mod reading_order;
pub mod types;

use vstd::prelude::*;
use crate::classifier::chars_eq;
use crate::config::PipelineConfig;
use crate::json::{JsonValue, bool_or, json_get, json_milli, json_str, str_or};
use crate::layout::reading_order::ReadingOrderOptions;
use crate::text::{chars_of, lower_chars, lower_seq, to_owned_string};

verus! {

#[derive(Clone, Copy, Debug, PartialEq, Eq, Structural)]
pub enum LayoutBackend {
    Heuristic,
    Mock,
    Fixture,
    Disabled,
}

/// The backend named (in any ASCII case); any other name means the heuristic one.
pub open spec fn backend_named(name: Seq<char>) -> LayoutBackend {
    let n = lower_seq(name);
    if n == "mock"@ {
        LayoutBackend::Mock
    } else if n == "fixture"@ {
        LayoutBackend::Fixture
    } else if n == "disabled"@ {
        LayoutBackend::Disabled
    } else {
        LayoutBackend::Heuristic
    }
}

pub fn parse_backend(value: &str) -> (b: LayoutBackend)
    ensures
        b == backend_named(value@),
{
    let l = lower_chars(chars_of(value).as_slice());
    let s = l.as_slice();
    if chars_eq(s, "mock") {
        LayoutBackend::Mock
    } else if chars_eq(s, "fixture") {
        LayoutBackend::Fixture
    } else if chars_eq(s, "disabled") {
        LayoutBackend::Disabled
    } else {
        LayoutBackend::Heuristic
    }
}

#[derive(Debug)]
pub struct LayoutOptions {
    pub enabled: bool,
    pub backend: LayoutBackend,
    pub save_debug_artifacts: bool,
    pub detect_headers_footers: bool,
    pub detect_watermarks: bool,
    pub detect_columns: bool,
    pub detect_figures: bool,
    pub detect_tables: bool,
    pub detect_formulas: bool,
    pub reading_order: ReadingOrderOptions,
}

impl Default for LayoutOptions {
    fn default() -> (o: Self)
        ensures
            o.enabled,
            o.backend == LayoutBackend::Heuristic,
            !o.save_debug_artifacts,
            o.detect_headers_footers,
            o.detect_watermarks,
            o.detect_columns,
            o.detect_figures,
            o.detect_tables,
            o.detect_formulas,
            o.reading_order.strategy@ == "layout_aware"@,
            o.reading_order.multi_column,
            o.reading_order.header_footer_handling@ == "mark"@,
            o.reading_order.y_tolerance_permille == 20,
            o.reading_order.column_gap_threshold_permille == 80,
    {
        LayoutOptions {
            enabled: true,
            backend: LayoutBackend::Heuristic,
            save_debug_artifacts: false,
            detect_headers_footers: true,
            detect_watermarks: true,
            detect_columns: true,
            detect_figures: true,
            detect_tables: true,
            detect_formulas: true,
            reading_order: ReadingOrderOptions::default(),
        }
    }
}

/// Settings given on the command line, which win over the configuration.
#[derive(Debug)]
pub struct LayoutOverrides {
    pub layout_backend: Option<String>,
    pub reading_order: Option<String>,
    pub debug_layout: Option<bool>,
    pub exclude_headers_footers_from_chunks: Option<bool>,
}

/// The `layout` section, `Null` where there is none.
pub open spec fn layout_section(config: Option<&PipelineConfig>) -> JsonValue {
    match config {
        Some(c) => c.pipeline.layout,
        None => JsonValue::Null,
    }
}

/// A thousandths reading of `s[key]`, or `default`, as a `u32` where it fits.
pub open spec fn permille_or(s: JsonValue, key: Seq<char>, default: u32) -> u32 {
    match json_milli(json_get(s, key)) {
        Some(m) => if 0 <= m <= u32::MAX {
            m as u32
        } else {
            default
        },
        None => default,
    }
}

/// What the configuration and the overrides make of the layout options.
pub open spec fn resolved_layout(config: Option<&PipelineConfig>, overrides: Option<&LayoutOverrides>, o: LayoutOptions) -> bool {
    let l = layout_section(config);
    let ro = json_get(l, "reading_order"@);
    let backend = match overrides {
        Some(ov) => match ov.layout_backend {
            Some(b) => backend_named(b@),
            None => backend_named(str_or(l, "backend"@, "heuristic"@)),
        },
        None => backend_named(str_or(l, "backend"@, "heuristic"@)),
    };
    let enabled = match overrides {
        Some(ov) => match ov.layout_backend {
            Some(b) => backend_named(b@) != LayoutBackend::Disabled,
            None => bool_or(l, "enabled"@, true),
        },
        None => bool_or(l, "enabled"@, true),
    };
    let strategy = match overrides {
        Some(ov) => match ov.reading_order {
            Some(s) => s@,
            None => match ro {
                Some(JsonValue::Object(_)) => str_or(ro.unwrap(), "strategy"@, "layout_aware"@),
                _ => "layout_aware"@,
            },
        },
        None => match ro {
            Some(JsonValue::Object(_)) => str_or(ro.unwrap(), "strategy"@, "layout_aware"@),
            _ => "layout_aware"@,
        },
    };
    let handling_cfg = match ro {
        Some(JsonValue::Object(_)) => str_or(ro.unwrap(), "header_footer_handling"@, "mark"@),
        _ => "mark"@,
    };
    let handling = match overrides {
        Some(ov) => match ov.exclude_headers_footers_from_chunks {
            Some(true) => "exclude_from_chunks"@,
            _ => handling_cfg,
        },
        None => handling_cfg,
    };
    let debug = match overrides {
        Some(ov) => match ov.debug_layout {
            Some(d) => d,
            None => bool_or(l, "save_debug_artifacts"@, false),
        },
        None => bool_or(l, "save_debug_artifacts"@, false),
    };
    let (multi, tol, gap) = match ro {
        Some(JsonValue::Object(_)) => (
            bool_or(ro.unwrap(), "multi_column"@, true),
            permille_or(ro.unwrap(), "y_tolerance"@, 20),
            permille_or(ro.unwrap(), "column_gap_threshold"@, 80),
        ),
        _ => (true, 20u32, 80u32),
    };
    &&& o.enabled == enabled
    &&& o.backend == backend
    &&& o.save_debug_artifacts == debug
    &&& o.detect_headers_footers == bool_or(l, "detect_headers_footers"@, true)
    &&& o.detect_watermarks == bool_or(l, "detect_watermarks"@, true)
    &&& o.detect_columns == bool_or(l, "detect_columns"@, true)
    &&& o.detect_figures == bool_or(l, "detect_figures"@, true)
    &&& o.detect_tables == bool_or(l, "detect_tables"@, true)
    &&& o.detect_formulas == bool_or(l, "detect_formulas"@, true)
    &&& o.reading_order.strategy@ == strategy
    &&& o.reading_order.multi_column == multi
    &&& o.reading_order.header_footer_handling@ == handling
    &&& o.reading_order.y_tolerance_permille == tol
    &&& o.reading_order.column_gap_threshold_permille == gap
}

fn read_permille(s: &JsonValue, key: &str, default: u32) -> (r: u32)
    ensures
        r == permille_or(*s, key@, default),
{
    match s.get(key) {
        Some(v) => match v.as_milli() {
            Some(m) => if 0 <= m && m <= 0xffff_ffff {
                m as u32
            } else {
                default
            },
            None => default,
        },
        None => default,
    }
}

/// The layout options that the pipeline configuration and the command-line
/// overrides set, the defaults for what they leave out.
pub fn resolve_layout_options(config: Option<&PipelineConfig>, overrides: Option<&LayoutOverrides>) -> (o: LayoutOptions)
    ensures
        resolved_layout(config, overrides, o),
{
    let null = JsonValue::Null;
    let layout: &JsonValue = match config {
        Some(c) => &c.pipeline.layout,
        None => &null,
    };
    let mut out = LayoutOptions::default();
    out.enabled = crate::json::read_bool(layout, "enabled", true);
    out.save_debug_artifacts = crate::json::read_bool(layout, "save_debug_artifacts", false);
    out.detect_headers_footers = crate::json::read_bool(layout, "detect_headers_footers", true);
    out.detect_watermarks = crate::json::read_bool(layout, "detect_watermarks", true);
    out.detect_columns = crate::json::read_bool(layout, "detect_columns", true);
    out.detect_figures = crate::json::read_bool(layout, "detect_figures", true);
    out.detect_tables = crate::json::read_bool(layout, "detect_tables", true);
    out.detect_formulas = crate::json::read_bool(layout, "detect_formulas", true);
    let backend_name = crate::json::read_str(layout, "backend", "heuristic");
    out.backend = parse_backend(backend_name.as_str());
    match layout.get("reading_order") {
        Some(ro) => match ro {
            JsonValue::Object(_) => {
                out.reading_order.strategy = crate::json::read_str(ro, "strategy", "layout_aware");
                out.reading_order.multi_column = crate::json::read_bool(ro, "multi_column", true);
                out.reading_order.header_footer_handling = crate::json::read_str(
                    ro,
                    "header_footer_handling",
                    "mark",
                );
                out.reading_order.y_tolerance_permille = read_permille(ro, "y_tolerance", 20);
                out.reading_order.column_gap_threshold_permille = read_permille(
                    ro,
                    "column_gap_threshold",
                    80,
                );
            },
            _ => {},
        },
        None => {},
    }
    match overrides {
        Some(ov) => {
            match &ov.layout_backend {
                Some(b) => {
                    out.backend = parse_backend(b.as_str());
                    out.enabled = match out.backend {
                        LayoutBackend::Disabled => false,
                        _ => true,
                    };
                },
                None => {},
            }
            match &ov.reading_order {
                Some(s) => {
                    out.reading_order.strategy = s.clone();
                },
                None => {},
            }
            match ov.debug_layout {
                Some(d) => {
                    out.save_debug_artifacts = d;
                },
                None => {},
            }
            match ov.exclude_headers_footers_from_chunks {
                Some(true) => {
                    out.reading_order.header_footer_handling = to_owned_string("exclude_from_chunks");
                },
                _ => {},
            }
        },
        None => {},
    }
    out
}

} // verus!
