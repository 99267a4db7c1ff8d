//! Finding formula regions on a page.

use vstd::prelude::*;
use crate::converters::traits::{ConversionError, ConversionStageRecord, ExtractionContext};
use crate::json::{JsonValue, json_get, json_milli, json_rounded, json_str};
use crate::layout::detectors::{page_part, percent};
use crate::model::BBox;
use crate::text::{decimal, decimal_string, push_str_chars, string_from_chars, to_owned_string};

verus! {

/// A page as a formula detector sees it.
#[derive(Debug)]
pub struct FormulaDetectionInput {
    pub document_id: String,
    pub page_number: u32,
    pub page_image_path: Option<String>,
    pub page_width: i64,
    pub page_height: i64,
}

#[derive(Debug)]
pub struct FormulaRegion {
    pub region_id: String,
    pub page_number: u32,
    pub bbox: BBox,
    pub confidence_permille: u32,
    pub source: String,
}

/// Something that finds formula regions on a page.
pub trait FormulaDetector {
    fn detect_formulas(&self, input: &FormulaDetectionInput, context: &mut ExtractionContext) -> Result<
        Vec<FormulaRegion>,
        ConversionError,
    >;
}

/// The detection step was recorded with the number of regions found.
pub open spec fn recorded_formula_step(
    old_ctx: ExtractionContext,
    new_ctx: ExtractionContext,
    status: Seq<char>,
    tool: Seq<char>,
    regions: nat,
) -> bool {
    &&& new_ctx.stage_records@.len() == old_ctx.stage_records@.len() + 1
    &&& new_ctx.stage_records@.drop_last() == old_ctx.stage_records@
    &&& new_ctx.stage_records@.last().name@ == "formula_detection"@
    &&& new_ctx.stage_records@.last().status@ == status
    &&& new_ctx.stage_records@.last().tool@ == tool
    &&& new_ctx.stage_records@.last().metadata@ == map!["regions"@ => decimal(regions)]
    &&& new_ctx.warnings == old_ctx.warnings
    &&& new_ctx.errors == old_ctx.errors
}

fn record_step(context: &mut ExtractionContext, record: ConversionStageRecord, regions: usize)
    requires
        record.metadata.wf(),
        record.metadata@ == Map::<Seq<char>, Seq<char>>::empty(),
        record.name@ == "formula_detection"@,
    ensures
        recorded_formula_step(*old(context), *final(context), record.status@, record.tool@, regions as nat),
{
    let r = record.with_meta("regions", decimal_string(regions as u64));
    context.push_stage(r);
    proof {
        assert(context.stage_records@.drop_last() =~= old(context).stage_records@);
        assert(context.stage_records@.last().metadata@ =~= map!["regions"@ => decimal(regions as nat)]);
    }
}

#[derive(Debug)]
pub struct MockFormulaDetector;

impl FormulaDetector for MockFormulaDetector {
    /// One formula region in the lower part of the page.
    fn detect_formulas(&self, input: &FormulaDetectionInput, context: &mut ExtractionContext) -> (r: Result<
        Vec<FormulaRegion>,
        ConversionError,
    >)
        ensures
            r matches Ok(v) && v@.len() == 1 && v@[0].region_id@ == "formula_mock_1"@
                && v@[0].page_number == input.page_number && v@[0].bbox == page_part(
                input.page_width as int,
                input.page_height as int,
                20,
                72,
                82,
                84,
            ) && v@[0].confidence_permille == 850 && v@[0].source@ == "mock_formula_detector"@,
            recorded_formula_step(*old(context), *final(context), "ok"@, "mock_formula_detector"@, 1),
    {
        let w = input.page_width;
        let h = input.page_height;
        let mut regions: Vec<FormulaRegion> = Vec::new();
        regions.push(
            FormulaRegion {
                region_id: to_owned_string("formula_mock_1"),
                page_number: input.page_number,
                bbox: BBox { x0: percent(w, 20), y0: percent(h, 72), x1: percent(w, 82), y1: percent(h, 84) },
                confidence_permille: 850,
                source: to_owned_string("mock_formula_detector"),
            },
        );
        record_step(context, ConversionStageRecord::ok("formula_detection", "mock_formula_detector"), 1);
        Ok(regions)
    }
}

#[derive(Debug)]
pub struct DisabledFormulaDetector;

impl FormulaDetector for DisabledFormulaDetector {
    /// Finds nothing, and says so with a warning step.
    fn detect_formulas(&self, input: &FormulaDetectionInput, context: &mut ExtractionContext) -> (r: Result<
        Vec<FormulaRegion>,
        ConversionError,
    >)
        ensures
            r matches Ok(v) && v@.len() == 0,
            recorded_formula_step(*old(context), *final(context), "warning"@, "disabled_formula_detector"@, 0),
    {
        record_step(
            context,
            ConversionStageRecord::warning("formula_detection", "disabled_formula_detector"),
            0,
        );
        Ok(Vec::new())
    }
}

/// The coordinate at `items[i]`, 0 where it is not a number.
pub open spec fn coordinate(items: Seq<JsonValue>, i: int) -> i64 {
    match json_rounded(Some(items[i])) {
        Some(v) => v,
        None => 0,
    }
}

/// A fixture entry that describes a formula: its `type` is `formula` and its
/// `bbox` an array of four entries.
pub open spec fn formula_entry(item: JsonValue) -> bool {
    json_str(json_get(item, "type"@)) == Some("formula"@) && match json_get(item, "bbox"@) {
        Some(JsonValue::Array(a)) => a@.len() == 4,
        _ => false,
    }
}

/// The region made of the fixture entry at `idx`.
pub open spec fn fixture_formula(r: FormulaRegion, item: JsonValue, idx: int, page_number: u32) -> bool {
    let a = match json_get(item, "bbox"@) {
        Some(JsonValue::Array(a)) => a@,
        _ => Seq::empty(),
    };
    &&& r.region_id@ == "formula_fixture_"@ + decimal((idx + 1) as nat)
    &&& r.page_number == page_number
    &&& r.bbox == (BBox {
        x0: coordinate(a, 0),
        y0: coordinate(a, 1),
        x1: coordinate(a, 2),
        y1: coordinate(a, 3),
    })
    &&& r.confidence_permille as int == match json_milli(json_get(item, "confidence"@)) {
        Some(m) => if 0 <= m <= u32::MAX {
            m as int
        } else {
            850
        },
        None => 850,
    }
    &&& r.source@ == "fixture_formula_detector"@
}

/// The positions of the fixture entries that describe formulas.
pub open spec fn formula_positions(items: Seq<JsonValue>) -> Seq<int>
    decreases items.len(),
{
    if items.len() == 0 {
        Seq::empty()
    } else if formula_entry(items.last()) {
        formula_positions(items.drop_last()).push(items.len() - 1)
    } else {
        formula_positions(items.drop_last())
    }
}

fn coordinate_exec(items: &Vec<JsonValue>, i: usize) -> (r: i64)
    requires
        i < items@.len(),
    ensures
        r == coordinate(items@, i as int),
{
    match items[i].as_rounded() {
        Some(v) => v,
        None => 0,
    }
}

#[derive(Debug)]
pub struct FixtureFormulaDetector;

impl FixtureFormulaDetector {
    /// The error when no page image was given to find the fixture by.
    pub fn missing_image_path() -> (e: ConversionError)
        ensures
            e.code@ == "FORMULA_DETECTION_FAILED"@,
            e.message@ == "Для fixture formula detector отсутствует page_image_path."@,
            e.recoverable,
    {
        ConversionError::new(
            "FORMULA_DETECTION_FAILED",
            to_owned_string("Для fixture formula detector отсутствует page_image_path."),
        )
    }

    /// The formula regions among a fixture's entries, in order, and the step
    /// recorded for them. Reading the fixture file is the caller's part.
    pub fn regions(&self, items: &Vec<JsonValue>, page_number: u32, context: &mut ExtractionContext) -> (r: Vec<FormulaRegion>)
        ensures
            r@.len() == formula_positions(items@).len(),
            forall|k: int|
                0 <= k < r@.len() ==> #[trigger] fixture_formula(
                    r@[k],
                    items@[formula_positions(items@)[k]],
                    formula_positions(items@)[k],
                    page_number,
                ),
            recorded_formula_step(
                *old(context),
                *final(context),
                "ok"@,
                "fixture_formula_detector"@,
                r@.len(),
            ),
    {
        let mut out: Vec<FormulaRegion> = Vec::new();
        let mut idx: usize = 0;
        while idx < items.len()
            invariant
                idx <= items@.len(),
                out@.len() == formula_positions(items@.take(idx as int)).len(),
                forall|k: int|
                    0 <= k < out@.len() ==> #[trigger] fixture_formula(
                        out@[k],
                        items@[formula_positions(items@.take(idx as int))[k]],
                        formula_positions(items@.take(idx as int))[k],
                        page_number,
                    ),
                forall|k: int|
                    0 <= k < out@.len() ==> 0 <= #[trigger] formula_positions(items@.take(idx as int))[k]
                        < idx,
            decreases items@.len() - idx,
        {
            proof {
                assert(items@.take(idx + 1).drop_last() =~= items@.take(idx as int));
            }
            let item = &items[idx];
            let is_formula = match item.get("type") {
                Some(t) => match t.as_str() {
                    Some(s) => crate::classifier::chars_eq(crate::text::chars_of(s).as_slice(), "formula"),
                    None => false,
                },
                None => false,
            };
            if is_formula {
                match item.get("bbox") {
                    Some(b) => match b.as_array() {
                        Some(a) => {
                            if a.len() == 4 {
                                let conf: u32 = match item.get("confidence") {
                                    Some(c) => match c.as_milli() {
                                        Some(m) => if 0 <= m && m <= 0xffff_ffff {
                                            m as u32
                                        } else {
                                            850
                                        },
                                        None => 850,
                                    },
                                    None => 850,
                                };
                                let mut id: Vec<char> = Vec::new();
                                push_str_chars(&mut id, "formula_fixture_");
                                push_str_chars(&mut id, decimal_string(idx as u64 + 1).as_str());
                                out.push(
                                    FormulaRegion {
                                        region_id: string_from_chars(id.as_slice()),
                                        page_number,
                                        bbox: BBox {
                                            x0: coordinate_exec(a, 0),
                                            y0: coordinate_exec(a, 1),
                                            x1: coordinate_exec(a, 2),
                                            y1: coordinate_exec(a, 3),
                                        },
                                        confidence_permille: conf,
                                        source: to_owned_string("fixture_formula_detector"),
                                    },
                                );
                            }
                        },
                        None => {},
                    },
                    None => {},
                }
            }
            idx = idx + 1;
        }
        proof {
            assert(items@.take(idx as int) =~= items@);
        }
        record_step(
            context,
            ConversionStageRecord::ok("formula_detection", "fixture_formula_detector"),
            out.len(),
        );
        out
    }
}

} // verus!
