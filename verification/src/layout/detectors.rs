//! Layout detectors: they find the regions of a page from what extraction
//! already placed on it.

use vstd::prelude::*;
use crate::converters::traits::{ConversionError, ConversionStageRecord, ExtractionContext};
use crate::layout::types::{LayoutRegion, LayoutRegionType, LayoutSource, region_type_named};
use crate::model::{BBox, Element, ElementType};
use crate::text::{decimal, decimal_string, lower_seq, push_str_chars, seq_contains, str_contains, string_from_chars, to_owned_string};

verus! {

/// A page as a detector sees it.
#[derive(Debug)]
pub struct LayoutDetectionInput {
    pub document_id: String,
    pub page_number: u32,
    pub page_image_asset_id: Option<String>,
    pub page_image_path: Option<String>,
    pub page_width: i64,
    pub page_height: i64,
    pub existing_elements: Vec<Element>,
}

/// Something that finds layout regions on a page.
pub trait LayoutDetector {
    fn detect_layout(&self, input: &LayoutDetectionInput, context: &mut ExtractionContext) -> Result<
        Vec<LayoutRegion>,
        ConversionError,
    >;
}

/// The detection step was recorded as a step of `tool` with the number of
/// regions found and the backend.
pub open spec fn recorded_detection(
    old_ctx: ExtractionContext,
    new_ctx: ExtractionContext,
    tool: Seq<char>,
    backend: Seq<char>,
    regions: nat,
) -> bool {
    &&& new_ctx.stage_records@.len() == old_ctx.stage_records@.len() + 1
    &&& new_ctx.stage_records@.drop_last() == old_ctx.stage_records@
    &&& new_ctx.stage_records@.last().name@ == "layout_detection"@
    &&& new_ctx.stage_records@.last().status@ == "ok"@
    &&& new_ctx.stage_records@.last().tool@ == tool
    &&& new_ctx.stage_records@.last().metadata@ == map![
        "regions"@ => decimal(regions),
        "backend"@ => backend,
    ]
    &&& new_ctx.warnings == old_ctx.warnings
    &&& new_ctx.errors == old_ctx.errors
}

fn record_detection(context: &mut ExtractionContext, tool: &str, backend: &str, regions: usize)
    ensures
        recorded_detection(*old(context), *final(context), tool@, backend@, regions as nat),
{
    let record = ConversionStageRecord::ok("layout_detection", tool).with_meta(
        "regions",
        decimal_string(regions as u64),
    ).with_meta("backend", to_owned_string(backend));
    context.push_stage(record);
    proof {
        assert(context.stage_records@.drop_last() =~= old(context).stage_records@);
        assert(context.stage_records@.last().metadata@ =~= map![
            "regions"@ => decimal(regions as nat),
            "backend"@ => backend@,
        ]);
    }
}

/// The region type an element suggests to the heuristic detector on a page of
/// height `h`: by its type, a text at the top becomes a header and one at the
/// bottom a footer, and a role that mentions `watermark` makes a watermark.
pub open spec fn heuristic_type(e: Element, h: int) -> LayoutRegionType {
    let b = e.bbox.unwrap();
    let base = match e.element_type {
        ElementType::Heading => LayoutRegionType::Title,
        ElementType::List | ElementType::ListItem => LayoutRegionType::List,
        ElementType::Table => LayoutRegionType::Table,
        ElementType::Image | ElementType::PageImage | ElementType::Chart => LayoutRegionType::Figure,
        ElementType::Formula => LayoutRegionType::Formula,
        ElementType::Code => LayoutRegionType::Code,
        _ => LayoutRegionType::Text,
    };
    let top = if 100 * b.y0 <= 8 * h && base == LayoutRegionType::Text {
        LayoutRegionType::Header
    } else {
        base
    };
    let bottom = if 100 * b.y1 >= 92 * h && top == LayoutRegionType::Text {
        LayoutRegionType::Footer
    } else {
        top
    };
    if e.role.is_some() && seq_contains(e.role.unwrap()@, "watermark"@) {
        LayoutRegionType::Watermark
    } else {
        bottom
    }
}

/// The positions of the elements that have a box.
pub open spec fn boxed_positions(es: Seq<Element>) -> Seq<int>
    decreases es.len(),
{
    if es.len() == 0 {
        Seq::empty()
    } else if es.last().bbox.is_some() {
        boxed_positions(es.drop_last()).push(es.len() - 1)
    } else {
        boxed_positions(es.drop_last())
    }
}

/// `r` is the region the heuristic detector makes of the element at `idx`.
pub open spec fn heuristic_region(r: LayoutRegion, e: Element, idx: int, page_number: u32, h: int) -> bool {
    &&& r.region_id@ == "r"@ + decimal((idx + 1) as nat)
    &&& r.page_number == page_number
    &&& r.region_type == heuristic_type(e, h)
    &&& r.bbox == e.bbox.unwrap()
    &&& r.polygon.is_none()
    &&& r.confidence_permille == 820
    &&& r.reading_order == e.reading_order
    &&& r.source == LayoutSource::Heuristic
}

/// The region the heuristic detector reports for a page where nothing has a box.
pub open spec fn whole_page_region(r: LayoutRegion, page_number: u32, w: int, h: int) -> bool {
    &&& r.region_id@ == "r1"@
    &&& r.page_number == page_number
    &&& r.region_type == LayoutRegionType::Unknown
    &&& r.bbox == (BBox {
        x0: 0,
        y0: 0,
        x1: if w > 1 { w as i64 } else { 1 },
        y1: if h > 1 { h as i64 } else { 1 },
    })
    &&& r.polygon.is_none()
    &&& r.confidence_permille == 400
    &&& r.reading_order == Some(1u32)
    &&& r.source == LayoutSource::Heuristic
}

fn is_watermark_role(e: &Element) -> (r: bool)
    ensures
        r == (e.role.is_some() && seq_contains(e.role.unwrap()@, "watermark"@)),
{
    match &e.role {
        Some(role) => str_contains(role.as_str(), "watermark"),
        None => false,
    }
}

fn heuristic_type_exec(e: &Element, b: BBox, h: i64) -> (t: LayoutRegionType)
    requires
        e.bbox == Some(b),
    ensures
        t == heuristic_type(*e, h as int),
{
    let base = match e.element_type {
        ElementType::Heading => LayoutRegionType::Title,
        ElementType::List | ElementType::ListItem => LayoutRegionType::List,
        ElementType::Table => LayoutRegionType::Table,
        ElementType::Image | ElementType::PageImage | ElementType::Chart => LayoutRegionType::Figure,
        ElementType::Formula => LayoutRegionType::Formula,
        ElementType::Code => LayoutRegionType::Code,
        _ => LayoutRegionType::Text,
    };
    let top = if 100 * (b.y0 as i128) <= 8 * (h as i128) && base == LayoutRegionType::Text {
        LayoutRegionType::Header
    } else {
        base
    };
    let bottom = if 100 * (b.y1 as i128) >= 92 * (h as i128) && top == LayoutRegionType::Text {
        LayoutRegionType::Footer
    } else {
        top
    };
    if is_watermark_role(e) {
        LayoutRegionType::Watermark
    } else {
        bottom
    }
}

fn prefixed_number(prefix: &str, n: u64) -> (r: String)
    ensures
        r@ == prefix@ + decimal(n as nat),
{
    let mut v: Vec<char> = Vec::new();
    push_str_chars(&mut v, prefix);
    let d = decimal_string(n);
    push_str_chars(&mut v, d.as_str());
    string_from_chars(v.as_slice())
}

#[derive(Debug)]
pub struct HeuristicLayoutDetector;

impl HeuristicLayoutDetector {
    /// One region per element with a box, in element order; a page where nothing
    /// has a box gets one region of unknown type over the whole page.
    pub fn regions(&self, input: &LayoutDetectionInput) -> (r: Vec<LayoutRegion>)
        ensures
            boxed_positions(input.existing_elements@).len() > 0 ==> {
                &&& r@.len() == boxed_positions(input.existing_elements@).len()
                &&& forall|k: int|
                    0 <= k < r@.len() ==> #[trigger] heuristic_region(
                        r@[k],
                        input.existing_elements@[boxed_positions(input.existing_elements@)[k]],
                        boxed_positions(input.existing_elements@)[k],
                        input.page_number,
                        input.page_height as int,
                    )
            },
            boxed_positions(input.existing_elements@).len() == 0 ==> r@.len() == 1
                && whole_page_region(
                r@[0],
                input.page_number,
                input.page_width as int,
                input.page_height as int,
            ),
    {
        let es = &input.existing_elements;
        let mut out: Vec<LayoutRegion> = Vec::new();
        let mut idx: usize = 0;
        while idx < es.len()
            invariant
                idx <= es@.len(),
                es == &input.existing_elements,
                out@.len() == boxed_positions(es@.take(idx as int)).len(),
                forall|k: int| 0 <= k < out@.len() ==> #[trigger] heuristic_region(
                    out@[k],
                    es@[boxed_positions(es@.take(idx as int))[k]],
                    boxed_positions(es@.take(idx as int))[k],
                    input.page_number,
                    input.page_height as int,
                ),
                forall|k: int| 0 <= k < out@.len() ==> 0 <= #[trigger] boxed_positions(es@.take(idx as int))[k] < idx,
            decreases es@.len() - idx,
        {
            proof {
                assert(es@.take(idx + 1).drop_last() =~= es@.take(idx as int));
            }
            let e = &es[idx];
            match e.bbox {
                Some(b) => {
                    let t = heuristic_type_exec(e, b, input.page_height);
                    let region = LayoutRegion {
                        region_id: prefixed_number("r", idx as u64 + 1),
                        page_number: input.page_number,
                        region_type: t,
                        bbox: b,
                        polygon: None,
                        confidence_permille: 820,
                        reading_order: e.reading_order,
                        source: LayoutSource::Heuristic,
                    };
                    out.push(region);
                },
                None => {},
            }
            idx = idx + 1;
        }
        proof {
            assert(es@.take(idx as int) =~= es@);
        }
        if out.len() == 0 {
            let w = input.page_width;
            let h = input.page_height;
            out.push(
                LayoutRegion {
                    region_id: to_owned_string("r1"),
                    page_number: input.page_number,
                    region_type: LayoutRegionType::Unknown,
                    bbox: BBox {
                        x0: 0,
                        y0: 0,
                        x1: if w > 1 { w } else { 1 },
                        y1: if h > 1 { h } else { 1 },
                    },
                    polygon: None,
                    confidence_permille: 400,
                    reading_order: Some(1),
                    source: LayoutSource::Heuristic,
                },
            );
        }
        out
    }
}

impl LayoutDetector for HeuristicLayoutDetector {
    fn detect_layout(&self, input: &LayoutDetectionInput, context: &mut ExtractionContext) -> (r: Result<
        Vec<LayoutRegion>,
        ConversionError,
    >)
        ensures
            r matches Ok(v) && v@.len() > 0 && recorded_detection(
                *old(context),
                *final(context),
                "heuristic_layout_detector"@,
                "heuristic"@,
                v@.len(),
            ),
    {
        let regions = self.regions(input);
        record_detection(context, "heuristic_layout_detector", "heuristic", regions.len());
        Ok(regions)
    }
}

/// `v * p / 100`, rounded down.
pub open spec fn percent_of(v: int, p: int) -> int {
    (v * p) / 100
}

pub fn percent(v: i64, p: i64) -> (r: i64)
    requires
        0 <= p <= 100,
    ensures
        r as int == percent_of(v as int, p as int),
{
    proof {
        let vp = (v as int) * (p as int);
        assert(-0x8000_0000_0000_0000 * 100 <= vp <= 0x7fff_ffff_ffff_ffff * 100) by (nonlinear_arith)
            requires
                vp == (v as int) * (p as int),
                0 <= p <= 100,
                -0x8000_0000_0000_0000 <= v <= 0x7fff_ffff_ffff_ffff,
        ;
    }
    let x: i128 = (v as i128) * (p as i128);
    let q: i128 = if x >= 0 {
        x / 100
    } else {
        -((-x + 99) / 100)
    };
    proof {
        let xi = x as int;
        if xi < 0 {
            let m = (-xi + 99) / 100;
            assert(100 * m <= -xi + 99 < 100 * m + 100);
            assert(xi / 100 == -m) by (nonlinear_arith)
                requires
                    100 * m <= -xi + 99,
                    -xi + 99 < 100 * m + 100,
            ;
        }
        assert(percent_of(v as int, p as int) == xi / 100);
        assert(-0x8000_0000_0000_0000 <= xi / 100 <= 0x7fff_ffff_ffff_ffff) by (nonlinear_arith)
            requires
                xi == (v as int) * (p as int),
                0 <= p <= 100,
                -0x8000_0000_0000_0000 <= v <= 0x7fff_ffff_ffff_ffff,
        ;
    }
    q as i64
}

/// The box of a fixed part of the page, given in percent of its width and height.
pub open spec fn page_part(w: int, h: int, x0: int, y0: int, x1: int, y1: int) -> BBox {
    BBox {
        x0: percent_of(w, x0) as i64,
        y0: percent_of(h, y0) as i64,
        x1: percent_of(w, x1) as i64,
        y1: percent_of(h, y1) as i64,
    }
}

fn page_part_exec(w: i64, h: i64, x0: i64, y0: i64, x1: i64, y1: i64) -> (b: BBox)
    requires
        0 <= x0 <= 100,
        0 <= y0 <= 100,
        0 <= x1 <= 100,
        0 <= y1 <= 100,
    ensures
        b == page_part(w as int, h as int, x0 as int, y0 as int, x1 as int, y1 as int),
{
    BBox { x0: percent(w, x0), y0: percent(h, y0), x1: percent(w, x1), y1: percent(h, y1) }
}

pub open spec fn has_type(es: Seq<Element>, t: ElementType) -> bool {
    exists|i: int| 0 <= i < es.len() && (#[trigger] es[i]).element_type == t
}

fn any_of_type(es: &Vec<Element>, t: ElementType) -> (r: bool)
    ensures
        r == has_type(es@, t),
{
    let mut i: usize = 0;
    while i < es.len()
        invariant
            i <= es@.len(),
            forall|k: int| 0 <= k < i ==> (#[trigger] es@[k]).element_type != t,
        decreases es@.len() - i,
    {
        if es[i].element_type == t {
            return true;
        }
        i = i + 1;
    }
    false
}

/// The mock region: identifier, type, box in percent of the page, confidence and
/// reading order.
pub open spec fn mock_region(
    r: LayoutRegion,
    id: Seq<char>,
    t: LayoutRegionType,
    input: LayoutDetectionInput,
    part: (int, int, int, int),
    confidence: u32,
    order: u32,
) -> bool {
    &&& r.region_id@ == id
    &&& r.page_number == input.page_number
    &&& r.region_type == t
    &&& r.bbox == page_part(
        input.page_width as int,
        input.page_height as int,
        part.0,
        part.1,
        part.2,
        part.3,
    )
    &&& r.polygon.is_none()
    &&& r.confidence_permille == confidence
    &&& r.reading_order == Some(order)
    &&& r.source == LayoutSource::Mock
}

/// The regions the mock detector reports: a table region when the page has a
/// table, a formula region when it has a formula, and a text region when it has
/// neither.
pub open spec fn mock_regions(r: Seq<LayoutRegion>, input: LayoutDetectionInput) -> bool {
    let es = input.existing_elements@;
    let table = has_type(es, ElementType::Table);
    let formula = has_type(es, ElementType::Formula);
    let table_region = |x: LayoutRegion|
        mock_region(x, "mock_table_1"@, LayoutRegionType::Table, input, (10, 30, 90, 70), 880, 2);
    let formula_region = |x: LayoutRegion|
        mock_region(x, "mock_formula_1"@, LayoutRegionType::Formula, input, (20, 72, 80, 82), 840, 3);
    if table && formula {
        r.len() == 2 && table_region(r[0]) && formula_region(r[1])
    } else if table {
        r.len() == 1 && table_region(r[0])
    } else if formula {
        r.len() == 1 && formula_region(r[0])
    } else {
        r.len() == 1 && mock_region(
            r[0],
            "mock_text_1"@,
            LayoutRegionType::Text,
            input,
            (8, 8, 92, 35),
            800,
            1,
        )
    }
}

#[derive(Debug)]
pub struct MockLayoutDetector;

impl MockLayoutDetector {
    pub fn regions(&self, input: &LayoutDetectionInput) -> (r: Vec<LayoutRegion>)
        ensures
            mock_regions(r@, *input),
    {
        let w = input.page_width;
        let h = input.page_height;
        let mut out: Vec<LayoutRegion> = Vec::new();
        let table = any_of_type(&input.existing_elements, ElementType::Table);
        let formula = any_of_type(&input.existing_elements, ElementType::Formula);
        if table {
            out.push(
                LayoutRegion {
                    region_id: to_owned_string("mock_table_1"),
                    page_number: input.page_number,
                    region_type: LayoutRegionType::Table,
                    bbox: page_part_exec(w, h, 10, 30, 90, 70),
                    polygon: None,
                    confidence_permille: 880,
                    reading_order: Some(2),
                    source: LayoutSource::Mock,
                },
            );
        }
        if formula {
            out.push(
                LayoutRegion {
                    region_id: to_owned_string("mock_formula_1"),
                    page_number: input.page_number,
                    region_type: LayoutRegionType::Formula,
                    bbox: page_part_exec(w, h, 20, 72, 80, 82),
                    polygon: None,
                    confidence_permille: 840,
                    reading_order: Some(3),
                    source: LayoutSource::Mock,
                },
            );
        }
        if out.len() == 0 {
            out.push(
                LayoutRegion {
                    region_id: to_owned_string("mock_text_1"),
                    page_number: input.page_number,
                    region_type: LayoutRegionType::Text,
                    bbox: page_part_exec(w, h, 8, 8, 92, 35),
                    polygon: None,
                    confidence_permille: 800,
                    reading_order: Some(1),
                    source: LayoutSource::Mock,
                },
            );
        }
        out
    }
}

impl LayoutDetector for MockLayoutDetector {
    fn detect_layout(&self, input: &LayoutDetectionInput, context: &mut ExtractionContext) -> (r: Result<
        Vec<LayoutRegion>,
        ConversionError,
    >)
        ensures
            r matches Ok(v) && mock_regions(v@, *input) && recorded_detection(
                *old(context),
                *final(context),
                "mock_layout_detector"@,
                "mock"@,
                v@.len(),
            ),
    {
        let regions = self.regions(input);
        record_detection(context, "mock_layout_detector", "mock", regions.len());
        Ok(regions)
    }
}

/// A region as a layout fixture file lists it.
#[derive(Debug)]
pub struct FixtureRegion {
    pub region_type: String,
    pub bbox: BBox,
    pub confidence_permille: u32,
}

/// Reads regions from a fixture file laid beside the page image. Reading the file
/// is the caller's part; this turns its entries into regions and records the step.
#[derive(Debug)]
pub struct FixtureLayoutDetector;

impl FixtureLayoutDetector {
    /// The error when no page image was given to find the fixture by.
    pub fn missing_image_path() -> (e: ConversionError)
        ensures
            e.code@ == "LAYOUT_FIXTURE_NOT_FOUND"@,
            e.message@ == "Для fixture backend не передан page_image_path."@,
            e.recoverable,
    {
        ConversionError::new(
            "LAYOUT_FIXTURE_NOT_FOUND",
            to_owned_string("Для fixture backend не передан page_image_path."),
        )
    }

    /// The regions of the fixture's entries, numbered `fixture_1`, `fixture_2`, ...
    pub fn regions(&self, parsed: &Vec<FixtureRegion>, page_number: u32) -> (r: Vec<LayoutRegion>)
        ensures
            r@.len() == parsed@.len(),
            forall|k: int|
                0 <= k < r@.len() ==> {
                    &&& (#[trigger] r@[k]).region_id@ == "fixture_"@ + decimal((k + 1) as nat)
                    &&& r@[k].page_number == page_number
                    &&& r@[k].region_type == region_type_named(lower_seq(parsed@[k].region_type@))
                    &&& r@[k].bbox == parsed@[k].bbox
                    &&& r@[k].polygon.is_none()
                    &&& r@[k].confidence_permille == parsed@[k].confidence_permille
                    &&& r@[k].reading_order.is_none()
                    &&& r@[k].source == LayoutSource::Fixture
                },
    {
        let mut out: Vec<LayoutRegion> = Vec::new();
        let mut i: usize = 0;
        while i < parsed.len()
            invariant
                i <= parsed@.len(),
                out@.len() == i,
                forall|k: int|
                    0 <= k < i ==> {
                        &&& (#[trigger] out@[k]).region_id@ == "fixture_"@ + decimal((k + 1) as nat)
                        &&& out@[k].page_number == page_number
                        &&& out@[k].region_type == region_type_named(lower_seq(parsed@[k].region_type@))
                        &&& out@[k].bbox == parsed@[k].bbox
                        &&& out@[k].polygon.is_none()
                        &&& out@[k].confidence_permille == parsed@[k].confidence_permille
                        &&& out@[k].reading_order.is_none()
                        &&& out@[k].source == LayoutSource::Fixture
                    },
            decreases parsed@.len() - i,
        {
            let p = &parsed[i];
            out.push(
                LayoutRegion {
                    region_id: prefixed_number("fixture_", i as u64 + 1),
                    page_number,
                    region_type: LayoutRegionType::from_str(p.region_type.as_str()),
                    bbox: p.bbox,
                    polygon: None,
                    confidence_permille: p.confidence_permille,
                    reading_order: None,
                    source: LayoutSource::Fixture,
                },
            );
            i = i + 1;
        }
        out
    }

    /// Records the step: how many regions the fixture gave, and where it was read.
    pub fn record(context: &mut ExtractionContext, regions: usize, fixture_path: &str)
        ensures
            final(context).stage_records@.len() == old(context).stage_records@.len() + 1,
            final(context).stage_records@.drop_last() == old(context).stage_records@,
            final(context).stage_records@.last().name@ == "layout_detection"@,
            final(context).stage_records@.last().tool@ == "fixture_layout_detector"@,
            final(context).stage_records@.last().metadata@ == map![
                "regions"@ => decimal(regions as nat),
                "backend"@ => "fixture"@,
                "fixture_path"@ => fixture_path@,
            ],
            final(context).warnings == old(context).warnings,
            final(context).errors == old(context).errors,
    {
        let record = ConversionStageRecord::ok("layout_detection", "fixture_layout_detector").with_meta(
            "regions",
            decimal_string(regions as u64),
        ).with_meta("backend", to_owned_string("fixture")).with_meta(
            "fixture_path",
            to_owned_string(fixture_path),
        );
        context.push_stage(record);
        proof {
            assert(context.stage_records@.drop_last() =~= old(context).stage_records@);
            assert(context.stage_records@.last().metadata@ =~= map![
                "regions"@ => decimal(regions as nat),
                "backend"@ => "fixture"@,
                "fixture_path"@ => fixture_path@,
            ]);
        }
    }
}

} // verus!
