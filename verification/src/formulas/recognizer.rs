//! Recognising a detected formula.

use vstd::prelude::*;
use crate::converters::traits::{ConversionError, ConversionStageRecord, ExtractionContext};
use crate::formulas::detector::FormulaRegion;
use crate::formulas::placeholder::create_formula_placeholder;
use crate::model::Element;
use crate::text::{decimal, to_owned_string};

verus! {

#[derive(Debug)]
pub struct FormulaRecognitionInput {
    pub document_id: String,
    pub formula_region: FormulaRegion,
}

/// Something that recognises a formula region.
pub trait FormulaRecognizer {
    fn recognize_formula(&self, input: &FormulaRecognitionInput, context: &mut ExtractionContext) -> Result<
        Element,
        ConversionError,
    >;
}

/// The recognition step was recorded for the region.
pub open spec fn recorded_recognition(
    old_ctx: ExtractionContext,
    new_ctx: ExtractionContext,
    status: Seq<char>,
    tool: Seq<char>,
    region_id: Seq<char>,
) -> bool {
    &&& new_ctx.stage_records@.len() == old_ctx.stage_records@.len() + 1
    &&& new_ctx.stage_records@.drop_last() == old_ctx.stage_records@
    &&& new_ctx.stage_records@.last().name@ == "formula_recognition"@
    &&& new_ctx.stage_records@.last().status@ == status
    &&& new_ctx.stage_records@.last().tool@ == tool
    &&& new_ctx.stage_records@.last().metadata@ == map!["region_id"@ => region_id]
    &&& new_ctx.warnings == old_ctx.warnings
    &&& new_ctx.errors == old_ctx.errors
}

fn record_recognition(context: &mut ExtractionContext, record: ConversionStageRecord, region_id: &String)
    requires
        record.metadata.wf(),
        record.metadata@ == Map::<Seq<char>, Seq<char>>::empty(),
        record.name@ == "formula_recognition"@,
    ensures
        recorded_recognition(*old(context), *final(context), record.status@, record.tool@, region_id@),
{
    let r = record.with_meta("region_id", region_id.clone());
    context.push_stage(r);
    proof {
        assert(context.stage_records@.drop_last() =~= old(context).stage_records@);
        assert(context.stage_records@.last().metadata@ =~= map!["region_id"@ => region_id@]);
    }
}

/// The placeholder that a recogniser without a model returns for a region.
pub open spec fn placeholder_for(e: Element, region: FormulaRegion, tool: Seq<char>) -> bool {
    &&& e.element_id@ == "p"@ + decimal(region.page_number as nat) + "_formula_placeholder_"@
        + region.region_id@
    &&& e.bbox == Some(region.bbox)
    &&& e.confidence_permille == region.confidence_permille
    &&& e.provenance.tool@ == tool
}

#[derive(Debug)]
pub struct MockFormulaRecognizer;

impl FormulaRecognizer for MockFormulaRecognizer {
    fn recognize_formula(&self, input: &FormulaRecognitionInput, context: &mut ExtractionContext) -> (r: Result<
        Element,
        ConversionError,
    >)
        ensures
            r matches Ok(e) && placeholder_for(e, input.formula_region, "mock_formula_recognizer"@),
            recorded_recognition(
                *old(context),
                *final(context),
                "ok"@,
                "mock_formula_recognizer"@,
                input.formula_region.region_id@,
            ),
    {
        let region = &input.formula_region;
        record_recognition(
            context,
            ConversionStageRecord::ok("formula_recognition", "mock_formula_recognizer"),
            &region.region_id,
        );
        Ok(
            create_formula_placeholder(
                region.page_number,
                region.region_id.as_str(),
                region.bbox,
                region.confidence_permille,
                "mock_formula_recognizer",
            ),
        )
    }
}

#[derive(Debug)]
pub struct FixtureFormulaRecognizer;

impl FormulaRecognizer for FixtureFormulaRecognizer {
    fn recognize_formula(&self, input: &FormulaRecognitionInput, context: &mut ExtractionContext) -> (r: Result<
        Element,
        ConversionError,
    >)
        ensures
            r matches Ok(e) && placeholder_for(e, input.formula_region, "fixture_formula_recognizer"@),
            recorded_recognition(
                *old(context),
                *final(context),
                "ok"@,
                "fixture_formula_recognizer"@,
                input.formula_region.region_id@,
            ),
    {
        let region = &input.formula_region;
        record_recognition(
            context,
            ConversionStageRecord::ok("formula_recognition", "fixture_formula_recognizer"),
            &region.region_id,
        );
        Ok(
            create_formula_placeholder(
                region.page_number,
                region.region_id.as_str(),
                region.bbox,
                region.confidence_permille,
                "fixture_formula_recognizer",
            ),
        )
    }
}

#[derive(Debug)]
pub struct DisabledFormulaRecognizer;

impl FormulaRecognizer for DisabledFormulaRecognizer {
    fn recognize_formula(&self, input: &FormulaRecognitionInput, context: &mut ExtractionContext) -> (r: Result<
        Element,
        ConversionError,
    >)
        ensures
            r matches Err(e) && e.code@ == "FORMULA_RECOGNITION_FAILED"@,
            recorded_recognition(
                *old(context),
                *final(context),
                "warning"@,
                "disabled_formula_recognizer"@,
                input.formula_region.region_id@,
            ),
    {
        record_recognition(
            context,
            ConversionStageRecord::warning("formula_recognition", "disabled_formula_recognizer"),
            &input.formula_region.region_id,
        );
        Err(
            ConversionError::new(
                "FORMULA_RECOGNITION_FAILED",
                to_owned_string("Распознавание формул отключено для текущего backend."),
            ),
        )
    }
}

} // verus!
