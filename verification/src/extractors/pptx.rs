//! PPTX presentations: what the reader is told to extract, and where a slide shape
//! is placed.

use vstd::prelude::*;
use crate::config::{bool_opt, config_bool, PipelineConfig};
use crate::classifier::FileClassification;
use crate::extractors::{
    base_document_model, count_pages, default_confidence, diagnostic, document_notice, model_identity,
    register_assets, registered_assets, stage,
    stats_fit_spec, stats_for, update_stats,
};
use crate::extractors::rtf::is_stage;
use crate::model::{
    Asset, BBox, ContentMode, Diagnostic, DocumentFormat, DocumentModel, Element, ElementType, Page,
    PageProfile, PageType, ProcessingStatus, Provenance,
};
use crate::text::{
    decimal, decimal_string, is_blank, join, join_strings, push_str_chars, str_is_blank,
    string_from_chars, to_owned_string, views,
};

verus! {

/// The extractor of PPTX presentations.
pub struct PptxExtractor;

impl PptxExtractor {
    pub fn name(&self) -> (s: &'static str)
        ensures
            s@ == "pptx_extractor"@,
    {
        "pptx_extractor"
    }
}

/// What the PPTX reader extracts.
#[derive(Debug)]
pub struct PptxOptions {
    pub enabled: bool,
    pub extract_text_boxes: bool,
    pub extract_titles: bool,
    pub extract_lists: bool,
    pub extract_tables: bool,
    pub extract_images: bool,
    pub extract_notes: bool,
    pub extract_shapes: bool,
    pub extract_charts_metadata: bool,
    pub synthetic_coordinates: bool,
}

impl Default for PptxOptions {
    fn default() -> (o: Self)
        ensures
            o.enabled && o.extract_text_boxes && o.extract_titles && o.extract_lists
                && o.extract_tables && o.extract_images && o.extract_notes && o.extract_shapes
                && o.extract_charts_metadata && o.synthetic_coordinates,
    {
        PptxOptions {
            enabled: true,
            extract_text_boxes: true,
            extract_titles: true,
            extract_lists: true,
            extract_tables: true,
            extract_images: true,
            extract_notes: true,
            extract_shapes: true,
            extract_charts_metadata: true,
            synthetic_coordinates: true,
        }
    }
}

/// The path `presentation.pptx.<key>`.
pub open spec fn pptx_key(key: Seq<char>) -> Seq<Seq<char>> {
    seq!["presentation"@, "pptx"@, key]
}

fn pptx_flag(config: Option<&PipelineConfig>, key: &'static str) -> (r: bool)
    ensures
        r == config_bool(config, pptx_key(key@), true),
{
    let path = ["presentation", "pptx", key];
    proof {
        assert(path@.map_values(|s: &str| s@) =~= pptx_key(key@));
    }
    bool_opt(config, &path, true)
}

/// The PPTX options that the pipeline configuration sets, the defaults (all on)
/// for what it leaves out. Extraction is enabled only where both `office.enabled`
/// and `presentation.pptx.enabled` allow it.
pub fn read_pptx_options(config: Option<&PipelineConfig>) -> (o: PptxOptions)
    ensures
        o.enabled == (config_bool(config, seq!["office"@, "enabled"@], true) && config_bool(
            config,
            pptx_key("enabled"@),
            true,
        )),
        o.extract_text_boxes == config_bool(config, pptx_key("extract_text_boxes"@), true),
        o.extract_titles == config_bool(config, pptx_key("extract_titles"@), true),
        o.extract_lists == config_bool(config, pptx_key("extract_lists"@), true),
        o.extract_tables == config_bool(config, pptx_key("extract_tables"@), true),
        o.extract_images == config_bool(config, pptx_key("extract_images"@), true),
        o.extract_notes == config_bool(config, pptx_key("extract_notes"@), true),
        o.extract_shapes == config_bool(config, pptx_key("extract_shapes"@), true),
        o.extract_charts_metadata == config_bool(config, pptx_key("extract_charts_metadata"@), true),
        o.synthetic_coordinates == config_bool(config, pptx_key("synthetic_coordinates"@), true),
{
    let office_enabled = ["office", "enabled"];
    proof {
        assert(office_enabled@.map_values(|s: &str| s@) =~= seq!["office"@, "enabled"@]);
    }
    let office = bool_opt(config, &office_enabled, true);
    let pptx = pptx_flag(config, "enabled");
    PptxOptions {
        enabled: office && pptx,
        extract_text_boxes: pptx_flag(config, "extract_text_boxes"),
        extract_titles: pptx_flag(config, "extract_titles"),
        extract_lists: pptx_flag(config, "extract_lists"),
        extract_tables: pptx_flag(config, "extract_tables"),
        extract_images: pptx_flag(config, "extract_images"),
        extract_notes: pptx_flag(config, "extract_notes"),
        extract_shapes: pptx_flag(config, "extract_shapes"),
        extract_charts_metadata: pptx_flag(config, "extract_charts_metadata"),
        synthetic_coordinates: pptx_flag(config, "synthetic_coordinates"),
    }
}

/// Where a slide shape stands: its own box when its position and a positive size
/// are known, else a synthetic band `[0, y, 1000, y + 28]` at the running offset.
pub open spec fn shape_box(x: Option<i64>, y0: Option<i64>, w: Option<i64>, h: Option<i64>, y: i64) -> BBox {
    match (x, y0, w, h) {
        (Some(x), Some(y0), Some(w), Some(h)) => if w > 0 && h > 0 {
            BBox { x0: x, y0: y0, x1: (x + w) as i64, y1: (y0 + h) as i64 }
        } else {
            BBox { x0: 0, y0: y, x1: 1000, y1: (y + 28) as i64 }
        },
        _ => BBox { x0: 0, y0: y, x1: 1000, y1: (y + 28) as i64 },
    }
}

/// The box of a slide shape (see [`shape_box`]).
pub fn shape_bbox_or_synthetic(x: Option<i64>, y0: Option<i64>, w: Option<i64>, h: Option<i64>, y: i64) -> (r: Option<BBox>)
    requires
        x.is_some() ==> i64::MIN <= x.unwrap() + w.unwrap_or(0) <= i64::MAX,
        y0.is_some() ==> i64::MIN <= y0.unwrap() + h.unwrap_or(0) <= i64::MAX,
        y + 28 <= i64::MAX,
    ensures
        r == Some(shape_box(x, y0, w, h, y)),
{
    match (x, y0, w, h) {
        (Some(x), Some(y0), Some(w), Some(h)) => {
            if w > 0 && h > 0 {
                Some(BBox { x0: x, y0: y0, x1: x + w, y1: y0 + h })
            } else {
                Some(BBox { x0: 0, y0: y, x1: 1000, y1: y + 28 })
            }
        },
        _ => Some(BBox { x0: 0, y0: y, x1: 1000, y1: y + 28 }),
    }
}

/// A shape of a slide as the slide reader gives it: whether it is the slide's
/// title, its text as written and in normalized form, the normalized texts of its
/// list items, its position and size where the slide states them, and the
/// relationship ids of the images it embeds.
pub struct SlideShape {
    pub is_title: bool,
    pub text: String,
    pub normalized_text: String,
    pub list_items: Vec<String>,
    pub x: Option<i64>,
    pub y: Option<i64>,
    pub width: Option<i64>,
    pub height: Option<i64>,
    pub embed_rids: Vec<String>,
}

/// The list items that are kept: those whose normalized text is not empty.
pub open spec fn kept_items(items: Seq<Seq<char>>) -> Seq<Seq<char>>
    decreases items.len(),
{
    if items.len() == 0 {
        Seq::empty()
    } else {
        let rest = kept_items(items.drop_last());
        if items.last().len() > 0 {
            rest.push(items.last())
        } else {
            rest
        }
    }
}

/// A title shape is passed over when titles are not extracted.
pub open spec fn shape_skipped(s: SlideShape, o: PptxOptions) -> bool {
    s.is_title && !o.extract_titles
}

/// One step of reading a slide: `(kind, shape, rid)` with kind 0 for the list of
/// shape `shape`, 1 for its text, 2 for an image it embeds and 3 for an image that
/// the slide refers to outside its shapes.
pub open spec fn shape_steps(s: SlideShape, i: nat, o: PptxOptions) -> Seq<(nat, nat, Seq<char>)> {
    (if o.extract_lists && kept_items(views(s.list_items@)).len() > 0 {
        seq![(0nat, i, Seq::<char>::empty())]
    } else {
        Seq::empty()
    }) + (if !is_blank(s.text@) {
        seq![(1nat, i, Seq::<char>::empty())]
    } else {
        Seq::empty()
    }) + (if o.extract_images {
        views(s.embed_rids@).map_values(|r: Seq<char>| (2nat, i, r))
    } else {
        Seq::empty()
    })
}

/// The steps of the shapes, shape by shape.
pub open spec fn shapes_steps(shapes: Seq<SlideShape>, o: PptxOptions) -> Seq<(nat, nat, Seq<char>)>
    decreases shapes.len(),
{
    if shapes.len() == 0 {
        Seq::empty()
    } else {
        let rest = shapes_steps(shapes.drop_last(), o);
        if shape_skipped(shapes.last(), o) {
            rest
        } else {
            rest + shape_steps(shapes.last(), (shapes.len() - 1) as nat, o)
        }
    }
}

/// The steps of a slide: those of its shapes, then its own images; none when
/// neither shapes nor text boxes are extracted.
pub open spec fn slide_steps_of(shapes: Seq<SlideShape>, slide_rids: Seq<Seq<char>>, o: PptxOptions) -> Seq<(nat, nat, Seq<char>)> {
    if o.extract_shapes || o.extract_text_boxes {
        shapes_steps(shapes, o) + (if o.extract_images {
            slide_rids.map_values(|r: Seq<char>| (3nat, 0nat, r))
        } else {
            Seq::empty()
        })
    } else {
        Seq::empty()
    }
}

/// The relationship ids of the image steps, each the first time it comes.
pub open spec fn unique_rids(steps: Seq<(nat, nat, Seq<char>)>) -> Seq<Seq<char>>
    decreases steps.len(),
{
    if steps.len() == 0 {
        Seq::empty()
    } else {
        let rest = unique_rids(steps.drop_last());
        let t = steps.last();
        if t.0 >= 2 && !rest.contains(t.2) {
            rest.push(t.2)
        } else {
            rest
        }
    }
}

/// A step of reading a slide (see [`shape_steps`]).
pub enum SlideStep {
    List(usize),
    Text(usize),
    ShapeImage(usize, String),
    SlideImage(String),
}

pub open spec fn step_view(s: SlideStep) -> (nat, nat, Seq<char>) {
    match s {
        SlideStep::List(i) => (0nat, i as nat, Seq::empty()),
        SlideStep::Text(i) => (1nat, i as nat, Seq::empty()),
        SlideStep::ShapeImage(i, r) => (2nat, i as nat, r@),
        SlideStep::SlideImage(r) => (3nat, 0nat, r@),
    }
}

pub open spec fn step_views(v: Seq<SlideStep>) -> Seq<(nat, nat, Seq<char>)> {
    v.map_values(|s: SlideStep| step_view(s))
}

/// The list items with non-empty text, in order.
pub fn kept_list_items(items: &Vec<String>) -> (r: Vec<String>)
    ensures
        views(r@) == kept_items(views(items@)),
{
    let mut out: Vec<String> = Vec::new();
    let mut i: usize = 0;
    while i < items.len()
        invariant
            i <= items@.len(),
            views(out@) == kept_items(views(items@).take(i as int)),
        decreases items@.len() - i,
    {
        proof {
            assert(views(items@).take(i + 1).drop_last() =~= views(items@).take(i as int));
        }
        if !items[i].as_str().is_empty() {
            out.push(items[i].clone());
            proof {
                assert(views(out@) =~= kept_items(views(items@).take(i as int)).push(items@[i as int]@));
            }
        }
        i = i + 1;
    }
    assert(views(items@).take(i as int) =~= views(items@));
    out
}

fn push_rid_steps(out: &mut Vec<SlideStep>, i: usize, rids: &Vec<String>)
    ensures
        step_views(final(out)@) == step_views(old(out)@) + views(rids@).map_values(|r: Seq<char>| (2nat, i as nat, r)),
{
    let ghost before = step_views(out@);
    let mut j: usize = 0;
    while j < rids.len()
        invariant
            j <= rids@.len(),
            step_views(out@) == before + views(rids@).take(j as int).map_values(|r: Seq<char>| (2nat, i as nat, r)),
        decreases rids@.len() - j,
    {
        let ghost prev = step_views(out@);
        out.push(SlideStep::ShapeImage(i, rids[j].clone()));
        proof {
            assert(step_views(out@) =~= prev.push((2nat, i as nat, rids@[j as int]@)));
            assert(views(rids@).take(j + 1) =~= views(rids@).take(j as int).push(rids@[j as int]@));
            assert(views(rids@).take(j + 1).map_values(|r: Seq<char>| (2nat, i as nat, r)) =~= views(
                rids@,
            ).take(j as int).map_values(|r: Seq<char>| (2nat, i as nat, r)).push((2nat, i as nat, rids@[j as int]@)));
        }
        j = j + 1;
    }
    assert(views(rids@).take(j as int) =~= views(rids@));
}

fn slide_steps(shapes: &Vec<SlideShape>, slide_rids: &Vec<String>, o: &PptxOptions) -> (r: Vec<SlideStep>)
    ensures
        step_views(r@) == slide_steps_of(shapes@, views(slide_rids@), *o),
{
    let mut out: Vec<SlideStep> = Vec::new();
    if !(o.extract_shapes || o.extract_text_boxes) {
        assert(step_views(out@) =~= Seq::<(nat, nat, Seq<char>)>::empty());
        return out;
    }
    let mut i: usize = 0;
    assert(step_views(out@) =~= shapes_steps(shapes@.take(0), *o));
    while i < shapes.len()
        invariant
            i <= shapes@.len(),
            step_views(out@) == shapes_steps(shapes@.take(i as int), *o),
        decreases shapes@.len() - i,
    {
        let s = &shapes[i];
        proof {
            assert(shapes@.take(i + 1).drop_last() =~= shapes@.take(i as int));
            assert(shapes@.take(i + 1).last() == shapes@[i as int]);
        }
        if !(s.is_title && !o.extract_titles) {
            let ghost before = step_views(out@);
            let items = kept_list_items(&s.list_items);
            let ghost a = if o.extract_lists && kept_items(views(s.list_items@)).len() > 0 {
                seq![(0nat, i as nat, Seq::<char>::empty())]
            } else {
                Seq::empty()
            };
            let ghost b = if !is_blank(s.text@) {
                seq![(1nat, i as nat, Seq::<char>::empty())]
            } else {
                Seq::empty()
            };
            let ghost c = if o.extract_images {
                views(s.embed_rids@).map_values(|r: Seq<char>| (2nat, i as nat, r))
            } else {
                Seq::empty()
            };
            if o.extract_lists && items.len() > 0 {
                out.push(SlideStep::List(i));
            }
            assert(step_views(out@) =~= before + a);
            if !str_is_blank(s.text.as_str()) {
                out.push(SlideStep::Text(i));
            }
            assert(step_views(out@) =~= before + a + b);
            if o.extract_images {
                push_rid_steps(&mut out, i, &s.embed_rids);
            }
            assert(step_views(out@) =~= before + a + b + c);
            assert(shape_steps(shapes@[i as int], i as nat, *o) =~= a + b + c);
        }
        i = i + 1;
    }
    assert(shapes@.take(i as int) =~= shapes@);
    let ghost head = step_views(out@);
    if o.extract_images {
        let mut j: usize = 0;
        while j < slide_rids.len()
            invariant
                j <= slide_rids@.len(),
                step_views(out@) == head + views(slide_rids@).take(j as int).map_values(|r: Seq<char>| (3nat, 0nat, r)),
            decreases slide_rids@.len() - j,
        {
            let ghost prev = step_views(out@);
            out.push(SlideStep::SlideImage(slide_rids[j].clone()));
            proof {
                assert(step_views(out@) =~= prev.push((3nat, 0nat, slide_rids@[j as int]@)));
                assert(views(slide_rids@).take(j + 1) =~= views(slide_rids@).take(j as int).push(slide_rids@[j as int]@));
                assert(views(slide_rids@).take(j + 1).map_values(|r: Seq<char>| (3nat, 0nat, r)) =~= views(
                    slide_rids@,
                ).take(j as int).map_values(|r: Seq<char>| (3nat, 0nat, r)).push((3nat, 0nat, slide_rids@[j as int]@)));
            }
            j = j + 1;
        }
        assert(views(slide_rids@).take(j as int) =~= views(slide_rids@));
    } else {
        assert(step_views(out@) =~= head + Seq::<(nat, nat, Seq<char>)>::empty());
    }
    out
}

fn contains_string(v: &Vec<String>, s: &String) -> (r: bool)
    ensures
        r == views(v@).contains(s@),
{
    let mut i: usize = 0;
    while i < v.len()
        invariant
            i <= v@.len(),
            forall|j: int| 0 <= j < i ==> v@[j]@ != s@,
        decreases v@.len() - i,
    {
        if crate::json::str_eq(&v[i], s.as_str()) {
            assert(views(v@)[i as int] == s@);
            return true;
        }
        i = i + 1;
    }
    proof {
        if views(v@).contains(s@) {
            let j = choose|j: int| 0 <= j < views(v@).len() && views(v@)[j] == s@;
            assert(v@[j]@ == s@);
        }
    }
    false
}

/// The relationship ids of the images that a slide shows, each once, in the order
/// in which reading the slide meets them: those that its shapes embed, shape by
/// shape, then those that the slide refers to itself. Images are read only where
/// they, and shapes or text boxes, are extracted; a title shape is passed over with
/// its images where titles are not extracted.
pub fn pptx_image_requests(shapes: &Vec<SlideShape>, slide_rids: &Vec<String>, options: &PptxOptions) -> (r: Vec<String>)
    ensures
        views(r@) == unique_rids(slide_steps_of(shapes@, views(slide_rids@), *options)),
{
    let steps = slide_steps(shapes, slide_rids, options);
    let ghost sv = step_views(steps@);
    let mut out: Vec<String> = Vec::new();
    let mut k: usize = 0;
    while k < steps.len()
        invariant
            k <= steps@.len(),
            sv == step_views(steps@),
            views(out@) == unique_rids(sv.take(k as int)),
        decreases steps@.len() - k,
    {
        proof {
            assert(sv.take(k + 1).drop_last() =~= sv.take(k as int));
            assert(sv.take(k + 1).last() == step_view(steps@[k as int]));
        }
        match &steps[k] {
            SlideStep::ShapeImage(_, rid) => {
                if !contains_string(&out, rid) {
                    out.push(rid.clone());
                    assert(views(out@) =~= unique_rids(sv.take(k as int)).push(rid@));
                }
            },
            SlideStep::SlideImage(rid) => {
                if !contains_string(&out, rid) {
                    out.push(rid.clone());
                    assert(views(out@) =~= unique_rids(sv.take(k as int)).push(rid@));
                }
            },
            _ => {},
        }
        k = k + 1;
    }
    assert(sv.take(k as int) =~= sv);
    out
}

/// The text of a shape's list: its kept items, one per line.
pub open spec fn list_text(s: SlideShape) -> Seq<char> {
    join(kept_items(views(s.list_items@)), "\n"@)
}

pub open spec fn bullets(items: Seq<Seq<char>>) -> Seq<Seq<char>> {
    items.map_values(|t: Seq<char>| "- "@ + t)
}

/// The markdown of a shape's list: a `- ` bullet for each kept item.
pub open spec fn list_markdown(s: SlideShape) -> Seq<char> {
    join(bullets(kept_items(views(s.list_items@))), "\n"@)
}

/// The markdown of a shape's text: a first-level heading for the title.
pub open spec fn text_markdown(s: SlideShape) -> Seq<char> {
    if s.is_title {
        "# "@ + s.normalized_text@
    } else {
        s.normalized_text@
    }
}

/// The sums `x + width` and `y + height` of a shape fit in 64 bits.
pub open spec fn shape_fits(s: SlideShape) -> bool {
    &&& (s.x.is_some() ==> i64::MIN <= s.x.unwrap() + s.width.unwrap_or(0) <= i64::MAX)
    &&& (s.y.is_some() ==> i64::MIN <= s.y.unwrap() + s.height.unwrap_or(0) <= i64::MAX)
}

pub open spec fn slide_element_id(slide: nat, k: nat) -> Seq<char> {
    "p"@ + decimal(slide) + "_e"@ + decimal(k)
}

/// What the element at position `k` (from 0) of slide `slide` has whatever its
/// kind: its id and orders, and its native provenance.
pub open spec fn on_slide(e: Element, slide: nat, k: nat) -> bool {
    &&& e.element_id@ == slide_element_id(slide, k + 1)
    &&& e.reading_order == Some((k + 1) as u32)
    &&& e.global_order == Some((k + 1) as u32)
    &&& !e.exclude_from_chunks
    &&& e.table_linearized@.len() == 0
    &&& e.confidence_permille == 990
    &&& e.warnings@.len() == 0
    &&& e.provenance.method@ == "native"@
    &&& e.provenance.tool@ == "pptx_ooxml_parser"@
}

pub open spec fn sourced(e: Element, stage: Seq<char>, kind: Seq<char>, value: Seq<char>) -> bool {
    &&& e.provenance.stage@ == stage
    &&& e.provenance.source_kind matches Some(t) && t@ == kind
    &&& e.provenance.source_value matches Some(t) && t@ == value
}

/// `e` is the list of shape `s`, read at offset `y` of the slide at `path`.
pub open spec fn list_element(e: Element, s: SlideShape, y: int, path: Seq<char>) -> bool {
    &&& e.element_type == ElementType::List
    &&& e.tag matches Some(t) && t@ == "a:p"@
    &&& e.role matches Some(t) && t@ == "slide_list"@
    &&& e.bbox == Some(shape_box(s.x, s.y, s.width, s.height, y as i64))
    &&& e.text matches Some(t) && t@ == list_text(s)
    &&& e.markdown matches Some(t) && t@ == list_markdown(s)
    &&& e.html.is_none()
    &&& e.normalized_text matches Some(t) && t@ == s.normalized_text@
    &&& e.raw matches Some(t) && t@ == s.text@
    &&& views(e.items@) == kept_items(views(s.list_items@))
    &&& sourced(e, "pptx_extract_text"@, "slide"@, path)
    &&& e.extra@.len() == 1
    &&& e.extra@[0].0@ == "list_type"@ && e.extra@[0].1@ == "ul"@
}

/// `e` is the text of shape `s` (a heading for the title), read at offset `y`.
pub open spec fn text_element(e: Element, s: SlideShape, y: int, path: Seq<char>) -> bool {
    &&& e.element_type == (if s.is_title { ElementType::Heading } else { ElementType::Text })
    &&& e.tag matches Some(t) && t@ == "a:t"@
    &&& e.role matches Some(t) && t@ == (if s.is_title { "slide_title"@ } else { "slide_text"@ })
    &&& e.bbox == Some(shape_box(s.x, s.y, s.width, s.height, y as i64))
    &&& e.text matches Some(t) && t@ == s.normalized_text@
    &&& e.markdown matches Some(t) && t@ == text_markdown(s)
    &&& e.html.is_none()
    &&& e.normalized_text matches Some(t) && t@ == s.normalized_text@
    &&& e.raw matches Some(t) && t@ == s.text@
    &&& e.items@.len() == 0
    &&& sourced(e, "pptx_extract_text"@, "slide"@, path)
    &&& e.extra@.len() == 0
}

/// `e` is an image read from the package entry `target` and stored as `asset`.
pub open spec fn image_element(e: Element, bbox: BBox, target: Seq<char>, asset: Seq<char>) -> bool {
    &&& e.element_type == ElementType::Image
    &&& e.tag matches Some(t) && t@ == "a:blip"@
    &&& e.role matches Some(t) && t@ == "embedded_image"@
    &&& e.bbox == Some(bbox)
    &&& e.text matches Some(t) && t@.len() == 0
    &&& e.markdown matches Some(t) && t@ == "![PPTX image]"@
    &&& e.html.is_none()
    &&& e.normalized_text matches Some(t) && t@.len() == 0
    &&& e.raw matches Some(t) && t@ == target
    &&& e.items@.len() == 0
    &&& sourced(e, "pptx_extract_media"@, "zip_entry"@, target)
    &&& e.extra@.len() == 1
    &&& e.extra@[0].0@ == "asset_id"@ && e.extra@[0].1@ == asset
}

/// The box of an image that the slide refers to outside its shapes.
pub open spec fn slide_image_box(y: int) -> BBox {
    BBox { x0: 0, y0: y as i64, x1: 300, y1: (y + 180) as i64 }
}

fn slide_id(slide: u32, k: u32) -> (r: String)
    ensures
        r@ == slide_element_id(slide as nat, k as nat),
{
    let mut v: Vec<char> = Vec::new();
    push_str_chars(&mut v, "p");
    push_str_chars(&mut v, decimal_string(slide as u64).as_str());
    push_str_chars(&mut v, "_e");
    push_str_chars(&mut v, decimal_string(k as u64).as_str());
    string_from_chars(v.as_slice())
}

fn slide_provenance(stage: &str, kind: &str, value: &str) -> (p: Provenance)
    ensures
        p.method@ == "native"@,
        p.tool@ == "pptx_ooxml_parser"@,
        p.stage@ == stage@,
        p.source_kind matches Some(t) && t@ == kind@,
        p.source_value matches Some(t) && t@ == value@,
{
    crate::extractors::provenance("pptx_ooxml_parser", stage, kind, value)
}

fn pair(a: &str, b: &str) -> (r: (String, String))
    ensures
        r.0@ == a@,
        r.1@ == b@,
{
    (to_owned_string(a), to_owned_string(b))
}

fn shape_bbox(s: &SlideShape, y: i64) -> (b: BBox)
    requires
        shape_fits(*s),
        y + 28 <= i64::MAX,
    ensures
        b == shape_box(s.x, s.y, s.width, s.height, y),
{
    match shape_bbox_or_synthetic(s.x, s.y, s.width, s.height, y) {
        Some(b) => b,
        None => BBox { x0: 0, y0: y, x1: 1000, y1: y + 28 },
    }
}

fn list_element_exec(slide: u32, k: u32, s: &SlideShape, y: i64, path: &String) -> (e: Element)
    requires
        k < u32::MAX,
        shape_fits(*s),
        y + 28 <= i64::MAX,
    ensures
        on_slide(e, slide as nat, k as nat),
        list_element(e, *s, y as int, path@),
{
    let items = kept_list_items(&s.list_items);
    let mut marks: Vec<String> = Vec::new();
    let mut i: usize = 0;
    while i < items.len()
        invariant
            i <= items@.len(),
            views(marks@) == bullets(views(items@).take(i as int)),
        decreases items@.len() - i,
    {
        let mut v: Vec<char> = Vec::new();
        push_str_chars(&mut v, "- ");
        push_str_chars(&mut v, items[i].as_str());
        let ghost m0 = views(marks@);
        marks.push(string_from_chars(v.as_slice()));
        proof {
            let x = items@[i as int]@;
            assert(views(marks@) =~= m0.push("- "@ + x));
            assert(views(items@).take(i + 1) =~= views(items@).take(i as int).push(x));
            assert(bullets(views(items@).take(i as int).push(x)) =~= bullets(views(items@).take(i as int)).push("- "@ + x));
        }
        i = i + 1;
    }
    assert(views(items@).take(i as int) =~= views(items@));
    let mut extra: Vec<(String, String)> = Vec::new();
    extra.push(pair("list_type", "ul"));
    let text = join_strings(&items, "\n");
    let markdown = join_strings(&marks, "\n");
    Element {
        element_id: slide_id(slide, k + 1),
        element_type: ElementType::List,
        tag: Some(to_owned_string("a:p")),
        role: Some(to_owned_string("slide_list")),
        reading_order: Some(k + 1),
        global_order: Some(k + 1),
        bbox: Some(shape_bbox(s, y)),
        text: Some(text),
        markdown: Some(markdown),
        html: None,
        normalized_text: Some(s.normalized_text.clone()),
        raw: Some(s.text.clone()),
        items,
        exclude_from_chunks: false,
        table_linearized: Vec::new(),
        provenance: slide_provenance("pptx_extract_text", "slide", path.as_str()),
        confidence_permille: default_confidence(),
        warnings: Vec::new(),
        extra,
    }
}

fn text_markdown_exec(s: &SlideShape) -> (r: String)
    ensures
        r@ == text_markdown(*s),
{
    if s.is_title {
        let mut v: Vec<char> = Vec::new();
        push_str_chars(&mut v, "# ");
        push_str_chars(&mut v, s.normalized_text.as_str());
        string_from_chars(v.as_slice())
    } else {
        s.normalized_text.clone()
    }
}

fn text_element_exec(slide: u32, k: u32, s: &SlideShape, y: i64, path: &String) -> (e: Element)
    requires
        k < u32::MAX,
        shape_fits(*s),
        y + 28 <= i64::MAX,
    ensures
        on_slide(e, slide as nat, k as nat),
        text_element(e, *s, y as int, path@),
{
    Element {
        element_id: slide_id(slide, k + 1),
        element_type: if s.is_title { ElementType::Heading } else { ElementType::Text },
        tag: Some(to_owned_string("a:t")),
        role: Some(to_owned_string(if s.is_title { "slide_title" } else { "slide_text" })),
        reading_order: Some(k + 1),
        global_order: Some(k + 1),
        bbox: Some(shape_bbox(s, y)),
        text: Some(s.normalized_text.clone()),
        markdown: Some(text_markdown_exec(s)),
        html: None,
        normalized_text: Some(s.normalized_text.clone()),
        raw: Some(s.text.clone()),
        items: Vec::new(),
        exclude_from_chunks: false,
        table_linearized: Vec::new(),
        provenance: slide_provenance("pptx_extract_text", "slide", path.as_str()),
        confidence_permille: default_confidence(),
        warnings: Vec::new(),
        extra: Vec::new(),
    }
}

fn image_element_exec(slide: u32, k: u32, bbox: BBox, target: &String, asset: &String) -> (e: Element)
    requires
        k < u32::MAX,
    ensures
        on_slide(e, slide as nat, k as nat),
        image_element(e, bbox, target@, asset@),
{
    let mut extra: Vec<(String, String)> = Vec::new();
    extra.push((to_owned_string("asset_id"), asset.clone()));
    Element {
        element_id: slide_id(slide, k + 1),
        element_type: ElementType::Image,
        tag: Some(to_owned_string("a:blip")),
        role: Some(to_owned_string("embedded_image")),
        reading_order: Some(k + 1),
        global_order: Some(k + 1),
        bbox: Some(bbox),
        text: Some(String::new()),
        markdown: Some(to_owned_string("![PPTX image]")),
        html: None,
        normalized_text: Some(String::new()),
        raw: Some(target.clone()),
        items: Vec::new(),
        exclude_from_chunks: false,
        table_linearized: Vec::new(),
        provenance: slide_provenance("pptx_extract_media", "zip_entry", target.as_str()),
        confidence_permille: default_confidence(),
        warnings: Vec::new(),
        extra,
    }
}

/// What became of an image that a slide refers to.
pub enum SlideImage {
    /// No relationship of the slide has its id.
    RelationshipMissing,
    /// Its relationship points at a package entry (the target) that is not there.
    MediaMissing(String),
    /// It was read from the package entry `target` and stored as the asset `asset_id`.
    Stored { target: String, asset_id: String },
}

pub open spec fn image_view(i: SlideImage) -> (nat, Seq<char>, Seq<char>) {
    match i {
        SlideImage::RelationshipMissing => (0nat, Seq::empty(), Seq::empty()),
        SlideImage::MediaMissing(t) => (1nat, t@, Seq::empty()),
        SlideImage::Stored { target, asset_id } => (2nat, target@, asset_id@),
    }
}

pub open spec fn image_views(v: Seq<SlideImage>) -> Seq<(nat, Seq<char>, Seq<char>)> {
    v.map_values(|i: SlideImage| image_view(i))
}

/// Reading a slide's steps so far: the running offset, the image ids met, the
/// elements made as `(kind, shape, offset, target, asset)`, the warnings as
/// `(code, message)`, the text and markdown lines, and whether any image of the
/// document has been stored.
pub struct SlideFold {
    pub y: int,
    pub seen: Seq<Seq<char>>,
    pub items: Seq<(nat, nat, int, Seq<char>, Seq<char>)>,
    pub warnings: Seq<(Seq<char>, Seq<char>)>,
    pub texts: Seq<Seq<char>>,
    pub markdowns: Seq<Seq<char>>,
    pub has_images: bool,
}

pub open spec fn missing_relationship_message(rid: Seq<char>) -> Seq<char> {
    "Не найдена связь изображения для "@ + rid
}

pub open spec fn missing_media_message(target: Seq<char>) -> Seq<char> {
    "Не найден media-файл PPTX: "@ + target
}

/// One step: a list moves the offset down 40, a text 32 and a stored image 56; an
/// image id met before is passed over, and an image that could not be read leaves
/// a warning in place of an element.
pub open spec fn fold_step(
    st: SlideFold,
    t: (nat, nat, Seq<char>),
    shapes: Seq<SlideShape>,
    images: Seq<(nat, Seq<char>, Seq<char>)>,
) -> SlideFold {
    if t.0 == 0 {
        let s = shapes[t.1 as int];
        SlideFold {
            y: st.y + 40,
            items: st.items.push((0nat, t.1, st.y, Seq::empty(), Seq::empty())),
            texts: st.texts.push(list_text(s)),
            markdowns: st.markdowns.push(list_markdown(s)),
            ..st
        }
    } else if t.0 == 1 {
        let s = shapes[t.1 as int];
        SlideFold {
            y: st.y + 32,
            items: st.items.push((1nat, t.1, st.y, Seq::empty(), Seq::empty())),
            texts: st.texts.push(s.normalized_text@),
            markdowns: st.markdowns.push(text_markdown(s)),
            ..st
        }
    } else if st.seen.contains(t.2) {
        st
    } else {
        let out = images[st.seen.len() as int];
        let seen = st.seen.push(t.2);
        if out.0 == 0 {
            SlideFold {
                seen,
                warnings: st.warnings.push(("PPTX_RELATIONSHIP_MISSING"@, missing_relationship_message(t.2))),
                ..st
            }
        } else if out.0 == 1 {
            SlideFold {
                seen,
                warnings: st.warnings.push(("PPTX_IMAGE_EXTRACTION_FAILED"@, missing_media_message(out.1))),
                ..st
            }
        } else {
            SlideFold {
                seen,
                y: st.y + 56,
                items: st.items.push((t.0, t.1, st.y, out.1, out.2)),
                has_images: true,
                ..st
            }
        }
    }
}

pub open spec fn slide_start(has_images: bool) -> SlideFold {
    SlideFold {
        y: 16,
        seen: Seq::empty(),
        items: Seq::empty(),
        warnings: Seq::empty(),
        texts: Seq::empty(),
        markdowns: Seq::empty(),
        has_images,
    }
}

/// The steps read one after another from offset 16.
pub open spec fn fold_steps(
    steps: Seq<(nat, nat, Seq<char>)>,
    shapes: Seq<SlideShape>,
    images: Seq<(nat, Seq<char>, Seq<char>)>,
    has_images: bool,
) -> SlideFold
    decreases steps.len(),
{
    if steps.len() == 0 {
        slide_start(has_images)
    } else {
        fold_step(fold_steps(steps.drop_last(), shapes, images, has_images), steps.last(), shapes, images)
    }
}

/// `e` is the element at position `k` of slide `slide` made from the item `it`.
pub open spec fn step_element(
    e: Element,
    slide: nat,
    k: nat,
    it: (nat, nat, int, Seq<char>, Seq<char>),
    shapes: Seq<SlideShape>,
    path: Seq<char>,
) -> bool {
    &&& on_slide(e, slide, k)
    &&& if it.0 == 0 {
        list_element(e, shapes[it.1 as int], it.2, path)
    } else if it.0 == 1 {
        text_element(e, shapes[it.1 as int], it.2, path)
    } else if it.0 == 2 {
        let s = shapes[it.1 as int];
        image_element(e, shape_box(s.x, s.y, s.width, s.height, it.2 as i64), it.3, it.4)
    } else {
        image_element(e, slide_image_box(it.2), it.3, it.4)
    }
}

/// `d` is the page-scoped warning `w` (code and message).
pub open spec fn page_warning(d: Diagnostic, w: (Seq<char>, Seq<char>)) -> bool {
    &&& d.code@ == w.0
    &&& d.severity@ == "warning"@
    &&& d.scope@ == "page"@
    &&& d.page_number.is_none()
    &&& d.element_id.is_none()
    &&& d.message@ == w.1
    &&& d.recoverable
    &&& d.extra@.len() == 0
}

proof fn lemma_fold_facts(
    steps: Seq<(nat, nat, Seq<char>)>,
    shapes: Seq<SlideShape>,
    images: Seq<(nat, Seq<char>, Seq<char>)>,
    has_images: bool,
)
    ensures
        ({
            let f = fold_steps(steps, shapes, images, has_images);
            &&& f.seen == unique_rids(steps)
            &&& f.items.len() <= steps.len()
            &&& 16 <= f.y <= 16 + 56 * steps.len()
        }),
    decreases steps.len(),
{
    if steps.len() > 0 {
        lemma_fold_facts(steps.drop_last(), shapes, images, has_images);
    }
}

proof fn lemma_unique_prefix(steps: Seq<(nat, nat, Seq<char>)>, i: int, j: int)
    requires
        0 <= i <= j <= steps.len(),
    ensures
        unique_rids(steps.take(i)).len() <= unique_rids(steps.take(j)).len(),
    decreases j - i,
{
    if i < j {
        lemma_unique_prefix(steps, i, j - 1);
        assert(steps.take(j).drop_last() =~= steps.take(j - 1));
    }
}

fn text_of(o: &Option<String>) -> (r: String)
    ensures
        o.is_some() ==> r@ == o.unwrap()@,
{
    match o {
        Some(t) => t.clone(),
        None => String::new(),
    }
}

fn prefixed(prefix: &str, s: &String) -> (r: String)
    ensures
        r@ == prefix@ + s@,
{
    let mut v: Vec<char> = Vec::new();
    push_str_chars(&mut v, prefix);
    push_str_chars(&mut v, s.as_str());
    string_from_chars(v.as_slice())
}

fn page_warning_exec(code: &str, message: String) -> (d: Diagnostic)
    ensures
        page_warning(d, (code@, message@)),
{
    diagnostic(code, "warning", "page", message.as_str())
}

/// What reading a slide's steps made.
struct StepsRead {
    elements: Vec<Element>,
    texts: Vec<String>,
    markdowns: Vec<String>,
    y: i64,
    has_images: bool,
}

#[verifier::spinoff_prover]
#[verifier::rlimit(60)]
fn read_steps(
    slide: u32,
    shapes: &Vec<SlideShape>,
    path: &String,
    steps: &Vec<SlideStep>,
    images: &Vec<SlideImage>,
    has_images: bool,
    warnings: &mut Vec<Diagnostic>,
) -> (r: StepsRead)
    requires
        forall|j: int| 0 <= j < shapes@.len() ==> shape_fits(#[trigger] shapes@[j]),
        forall|j: int|
            0 <= j < steps@.len() ==> (#[trigger] step_views(steps@)[j]).0 <= 3 && (step_views(steps@)[j].0 <= 2
                ==> step_views(steps@)[j].1 < shapes@.len()),
        16 + 56 * steps@.len() + 200 <= i64::MAX,
        steps@.len() < u32::MAX,
        images@.len() == unique_rids(step_views(steps@)).len(),
    ensures
        ({
            let f = fold_steps(step_views(steps@), shapes@, image_views(images@), has_images);
            &&& r.elements@.len() == f.items.len()
            &&& forall|j: int|
                0 <= j < f.items.len() ==> step_element(#[trigger] r.elements@[j], slide as nat, j as nat, f.items[j], shapes@, path@)
            &&& r.y == f.y
            &&& views(r.texts@) == f.texts
            &&& views(r.markdowns@) == f.markdowns
            &&& r.has_images == f.has_images
            &&& final(warnings)@.len() == old(warnings)@.len() + f.warnings.len()
            &&& forall|j: int| 0 <= j < old(warnings)@.len() ==> #[trigger] final(warnings)@[j] == old(warnings)@[j]
            &&& forall|j: int|
                0 <= j < f.warnings.len() ==> page_warning(
                    #[trigger] final(warnings)@[old(warnings)@.len() + j],
                    f.warnings[j],
                )
        }),
{
    let ghost sv = step_views(steps@);
    let ghost iv = image_views(images@);
    let ghost sh = shapes@;
    let ghost w0 = warnings@;
    let mut elements: Vec<Element> = Vec::new();
    let mut texts: Vec<String> = Vec::new();
    let mut mds: Vec<String> = Vec::new();
    let mut seen: Vec<String> = Vec::new();
    let mut y: i64 = 16;
    let mut hi = has_images;
    let mut k: usize = 0;
    assert(sv.take(0) =~= Seq::<(nat, nat, Seq<char>)>::empty());
    while k < steps.len()
        invariant
            k <= steps@.len(),
            sv == step_views(steps@),
            iv == image_views(images@),
            sh == shapes@,
            forall|j: int| 0 <= j < sh.len() ==> shape_fits(#[trigger] sh[j]),
            forall|j: int| 0 <= j < sv.len() ==> (#[trigger] sv[j]).0 <= 3 && (sv[j].0 <= 2 ==> sv[j].1 < sh.len()),
            16 + 56 * sv.len() + 200 <= i64::MAX,
            sv.len() < u32::MAX,
            iv.len() == unique_rids(sv).len(),
            ({
                let f = fold_steps(sv.take(k as int), sh, iv, has_images);
                &&& elements@.len() == f.items.len()
                &&& forall|j: int|
                    0 <= j < f.items.len() ==> step_element(#[trigger] elements@[j], slide as nat, j as nat, f.items[j], sh, path@)
                &&& y == f.y
                &&& views(seen@) == f.seen
                &&& views(texts@) == f.texts
                &&& views(mds@) == f.markdowns
                &&& hi == f.has_images
                &&& warnings@.len() == w0.len() + f.warnings.len()
                &&& forall|j: int| 0 <= j < w0.len() ==> #[trigger] warnings@[j] == w0[j]
                &&& forall|j: int| 0 <= j < f.warnings.len() ==> page_warning(#[trigger] warnings@[w0.len() + j], f.warnings[j])
            }),
        decreases steps@.len() - k,
    {
        let ghost f0 = fold_steps(sv.take(k as int), sh, iv, has_images);
        let ghost t = sv[k as int];
        proof {
            assert(sv.take(k + 1).drop_last() =~= sv.take(k as int));
            assert(sv.take(k + 1).last() == t);
            lemma_fold_facts(sv.take(k as int), sh, iv, has_images);
            lemma_unique_prefix(sv, k + 1, sv.len() as int);
            assert(sv.take(sv.len() as int) =~= sv);
        }
        let ghost e0 = elements@;
        let ghost w1 = warnings@;
        let n: u32 = elements.len() as u32;
        match &steps[k] {
            SlideStep::List(i) => {
                let e = list_element_exec(slide, n, &shapes[*i], y, path);
                texts.push(text_of(&e.text));
                mds.push(text_of(&e.markdown));
                elements.push(e);
                y = y + 40;
            },
            SlideStep::Text(i) => {
                let e = text_element_exec(slide, n, &shapes[*i], y, path);
                texts.push(text_of(&e.text));
                mds.push(text_of(&e.markdown));
                elements.push(e);
                y = y + 32;
            },
            SlideStep::ShapeImage(i, rid) => {
                if !contains_string(&seen, rid) {
                    let idx = seen.len();
                    seen.push(rid.clone());
                    match &images[idx] {
                        SlideImage::RelationshipMissing => {
                            warnings.push(
                                page_warning_exec("PPTX_RELATIONSHIP_MISSING", prefixed("Не найдена связь изображения для ", rid)),
                            );
                        },
                        SlideImage::MediaMissing(target) => {
                            warnings.push(
                                page_warning_exec("PPTX_IMAGE_EXTRACTION_FAILED", prefixed("Не найден media-файл PPTX: ", target)),
                            );
                        },
                        SlideImage::Stored { target, asset_id } => {
                            let b = shape_bbox(&shapes[*i], y);
                            elements.push(image_element_exec(slide, n, b, target, asset_id));
                            y = y + 56;
                            hi = true;
                        },
                    }
                }
            },
            SlideStep::SlideImage(rid) => {
                if !contains_string(&seen, rid) {
                    let idx = seen.len();
                    seen.push(rid.clone());
                    match &images[idx] {
                        SlideImage::RelationshipMissing => {
                            warnings.push(
                                page_warning_exec("PPTX_RELATIONSHIP_MISSING", prefixed("Не найдена связь изображения для ", rid)),
                            );
                        },
                        SlideImage::MediaMissing(target) => {
                            warnings.push(
                                page_warning_exec("PPTX_IMAGE_EXTRACTION_FAILED", prefixed("Не найден media-файл PPTX: ", target)),
                            );
                        },
                        SlideImage::Stored { target, asset_id } => {
                            let b = BBox { x0: 0, y0: y, x1: 300, y1: y + 180 };
                            elements.push(image_element_exec(slide, n, b, target, asset_id));
                            y = y + 56;
                            hi = true;
                        },
                    }
                }
            },
        }
        proof {
            let f1 = fold_steps(sv.take(k + 1), sh, iv, has_images);
            assert(f1 == fold_step(f0, t, sh, iv));
            assert forall|j: int| 0 <= j < f0.items.len() implies #[trigger] elements@[j] == e0[j] && f1.items[j] == f0.items[j] by {}
            assert forall|j: int| 0 <= j < w0.len() implies #[trigger] warnings@[j] == w0[j] by {
                assert(warnings@[j] == w1[j]);
            }
            assert forall|j: int| 0 <= j < f0.warnings.len() implies #[trigger] warnings@[w0.len() + j] == w1[w0.len() + j] && f1.warnings[j] == f0.warnings[j] by {}
            assert(views(seen@) =~= f1.seen);
            assert(views(texts@) =~= f1.texts);
            assert(views(mds@) =~= f1.markdowns);
        }
        k = k + 1;
    }
    assert(sv.take(k as int) =~= sv);
    StepsRead { elements, texts, markdowns: mds, y, has_images: hi }
}

/// A table of a slide: its rows of cell texts as the slide holds them, and what the
/// table reader made of its grid of rows by columns (as many columns as the widest
/// row has cells): the normalized text of each cell, row by row, the normalized
/// text of the whole table, and its markdown, HTML and CSV renderings.
pub struct SlideTable {
    pub rows: Vec<Vec<String>>,
    pub cell_texts: Vec<String>,
    pub normalized_text: String,
    pub markdown: String,
    pub html: String,
    pub csv: String,
}

/// The number of cells of the widest row.
pub open spec fn widest_row(rows: Seq<Vec<String>>) -> nat
    decreases rows.len(),
{
    if rows.len() == 0 {
        0
    } else {
        let rest = widest_row(rows.drop_last());
        if rows.last()@.len() > rest {
            rows.last()@.len()
        } else {
            rest
        }
    }
}

/// A table becomes an element when it has a row and a cell.
pub open spec fn table_kept(t: SlideTable) -> bool {
    t.rows@.len() > 0 && widest_row(t.rows@) > 0
}

/// The text of a table: its cells' texts joined by ` | `.
pub open spec fn table_text(t: SlideTable) -> Seq<char> {
    join(views(t.cell_texts@), " | "@)
}

/// The tables read so far: the running offset, each table made an element as
/// `(index, offset)`, and the text and markdown lines.
pub struct TableFold {
    pub y: int,
    pub placed: Seq<(nat, int)>,
    pub texts: Seq<Seq<char>>,
    pub markdowns: Seq<Seq<char>>,
}

/// The tables read one after another from offset `y0`, each kept table moving the
/// offset down 24 a row and 16 more.
pub open spec fn tables_fold(ts: Seq<SlideTable>, y0: int) -> TableFold
    decreases ts.len(),
{
    if ts.len() == 0 {
        TableFold { y: y0, placed: Seq::empty(), texts: Seq::empty(), markdowns: Seq::empty() }
    } else {
        let r = tables_fold(ts.drop_last(), y0);
        let t = ts.last();
        if table_kept(t) {
            TableFold {
                y: r.y + t.rows@.len() * 24 + 16,
                placed: r.placed.push(((ts.len() - 1) as nat, r.y)),
                texts: r.texts.push(table_text(t)),
                markdowns: r.markdowns.push(t.markdown@),
            }
        } else {
            r
        }
    }
}

/// The height the tables could take at most: 24 a row and 16 each.
pub open spec fn tables_extent(ts: Seq<SlideTable>) -> nat
    decreases ts.len(),
{
    if ts.len() == 0 {
        0
    } else {
        tables_extent(ts.drop_last()) + ts.last().rows@.len() * 24 + 16
    }
}

/// `e` is the table `t`, the `idx`-th (from 0) of the slide at `path`, read at offset `y`.
pub open spec fn table_element(e: Element, t: SlideTable, idx: nat, y: int, path: Seq<char>) -> bool {
    &&& e.element_type == ElementType::Table
    &&& e.tag matches Some(s) && s@ == "a:tbl"@
    &&& e.role matches Some(s) && s@ == "slide_table"@
    &&& e.bbox == Some(BBox { x0: 0, y0: y as i64, x1: 1000, y1: (y + t.rows@.len() * 24) as i64 })
    &&& e.text matches Some(s) && s@ == table_text(t)
    &&& e.markdown matches Some(s) && s@ == t.markdown@
    &&& e.html matches Some(s) && s@ == t.html@
    &&& e.normalized_text matches Some(s) && s@ == t.normalized_text@
    &&& e.raw matches Some(s) && s@ == "table_"@ + decimal(idx + 1)
    &&& e.items@.len() == 0
    &&& sourced(e, "pptx_extract_tables"@, "slide"@, path)
    &&& e.extra@.len() == 3
    &&& e.extra@[0].0@ == "rows"@ && e.extra@[0].1@ == decimal(t.rows@.len())
    &&& e.extra@[1].0@ == "columns"@ && e.extra@[1].1@ == decimal(widest_row(t.rows@))
    &&& e.extra@[2].0@ == "csv"@ && e.extra@[2].1@ == t.csv@
}

/// The speaker notes of a slide.
pub enum SlideNotes {
    /// The slide has no notes relationship.
    Absent,
    /// The slide names a notes part that the package does not hold.
    Missing,
    /// The notes part at `path` holds the text `text`.
    Found { path: String, text: String },
}

/// `e` is the speaker notes `text` from the part at `path`, at offset `y`.
pub open spec fn notes_element(e: Element, y: int, path: Seq<char>, text: Seq<char>) -> bool {
    &&& e.element_type == ElementType::Text
    &&& e.tag matches Some(s) && s@ == "p:notes"@
    &&& e.role matches Some(s) && s@ == "speaker_notes"@
    &&& e.bbox == Some(BBox { x0: 0, y0: y as i64, x1: 1000, y1: (y + 100) as i64 })
    &&& e.text matches Some(s) && s@ == text
    &&& e.markdown matches Some(s) && s@ == text
    &&& e.html.is_none()
    &&& e.normalized_text matches Some(s) && s@ == text
    &&& e.raw matches Some(s) && s@ == path
    &&& e.items@.len() == 0
    &&& sourced(e, "pptx_extract_notes"@, "notes"@, path)
    &&& e.extra@.len() == 0
}

/// What the slide reader found in one slide: the slide part's path, whether it has
/// charts, its shapes, the images it refers to outside them, its tables and its
/// speaker notes.
pub struct SlideContent {
    pub slide_path: String,
    pub has_charts: bool,
    pub shapes: Vec<SlideShape>,
    pub slide_rids: Vec<String>,
    pub tables: Vec<SlideTable>,
    pub notes: SlideNotes,
}

/// A slide made a page, with the document warnings raised while reading it and
/// whether the document has shown tables and images so far.
pub struct SlideOutput {
    pub page: Page,
    pub warnings: Vec<Diagnostic>,
    pub has_tables: bool,
    pub has_images: bool,
}

pub open spec fn content_steps(c: SlideContent, o: PptxOptions) -> Seq<(nat, nat, Seq<char>)> {
    slide_steps_of(c.shapes@, views(c.slide_rids@), o)
}

/// The slide's number, offsets and element orders fit their fields.
pub open spec fn slide_fits(index: nat, c: SlideContent, o: PptxOptions) -> bool {
    &&& index + 1 <= u32::MAX
    &&& forall|j: int| 0 <= j < c.shapes@.len() ==> shape_fits(#[trigger] c.shapes@[j])
    &&& 16 + 56 * content_steps(c, o).len() + tables_extent(c.tables@) + 200 <= i64::MAX
    &&& content_steps(c, o).len() + c.tables@.len() + 1 < u32::MAX
}

pub open spec fn chart_warnings(c: SlideContent, o: PptxOptions) -> Seq<(Seq<char>, Seq<char>)> {
    if c.has_charts && o.extract_charts_metadata {
        seq![("PPTX_CHART_EXTRACTION_PARTIAL"@, "Извлечение метаданных диаграмм PPTX выполнено частично (MVP)."@)]
    } else {
        Seq::empty()
    }
}

pub open spec fn notes_warnings(c: SlideContent, o: PptxOptions) -> Seq<(Seq<char>, Seq<char>)> {
    if o.extract_notes && c.notes is Missing {
        seq![("PPTX_NOTES_SKIPPED"@, "Связь notesSlide обнаружена, но notes XML не найден."@)]
    } else {
        Seq::empty()
    }
}

/// The notes become an element when they are extracted, found and not blank.
pub open spec fn notes_shown(c: SlideContent, o: PptxOptions) -> bool {
    match c.notes {
        SlideNotes::Found { path, text } => o.extract_notes && !is_blank(text@),
        _ => false,
    }
}

pub open spec fn notes_at(e: Element, c: SlideContent, y: int) -> bool {
    match c.notes {
        SlideNotes::Found { path, text } => notes_element(e, y, path@, text@),
        _ => false,
    }
}

/// `p` is slide number `slide`, with the given text and markdown lines.
pub open spec fn slide_page(
    p: Page,
    slide: nat,
    texts: Seq<Seq<char>>,
    markdowns: Seq<Seq<char>>,
    has_tables: bool,
    has_images: bool,
) -> bool {
    &&& p.page_number == slide as u32
    &&& p.page_type == PageType::Slide
    &&& p.width.is_none() && p.height.is_none() && p.page_image_asset_id.is_none()
    &&& p.page_profile.content_mode == ContentMode::Slide
    &&& p.page_profile.has_native_text == (texts.len() > 0)
    &&& !p.page_profile.has_ocr_required_regions
    &&& p.page_profile.has_tables == has_tables
    &&& p.page_profile.has_images == has_images
    &&& !p.page_profile.has_formulas && !p.page_profile.has_handwriting
    &&& p.page_profile.language matches Some(l) && l@ == "ru"@
    &&& p.page_profile.confidence_permille == 930
    &&& p.text@ == join(texts, "\n"@)
    &&& p.markdown@ == join(markdowns, "\n\n"@)
    &&& p.html@.len() == 0
    &&& p.warnings@.len() == 0
}

/// `out` is slide `index` (from 0) read from `c`, its images having come out as
/// `images`, after slides that had shown tables (`has_tables`) or images
/// (`has_images`) or not.
pub open spec fn pptx_slide(
    out: SlideOutput,
    index: nat,
    c: SlideContent,
    images: Seq<SlideImage>,
    o: PptxOptions,
    has_tables: bool,
    has_images: bool,
) -> bool {
    let f = fold_steps(content_steps(c, o), c.shapes@, image_views(images), has_images);
    let tf = tables_fold(c.tables@, f.y);
    let n1 = f.items.len();
    let n2 = tf.placed.len();
    let es = out.page.elements@;
    let ws = chart_warnings(c, o) + f.warnings + notes_warnings(c, o);
    &&& es.len() == n1 + n2 + (if notes_shown(c, o) { 1int } else { 0int })
    &&& forall|k: int| 0 <= k < n1 ==> step_element(#[trigger] es[k], index + 1, k as nat, f.items[k], c.shapes@, c.slide_path@)
    &&& forall|k: int|
        0 <= k < n2 ==> on_slide(#[trigger] es[n1 + k], index + 1, (n1 + k) as nat) && table_element(
            es[n1 + k],
            c.tables@[tf.placed[k].0 as int],
            tf.placed[k].0,
            tf.placed[k].1,
            c.slide_path@,
        )
    &&& notes_shown(c, o) ==> on_slide(es[(n1 + n2) as int], index + 1, (n1 + n2) as nat) && notes_at(es[(n1 + n2) as int], c, tf.y)
    &&& out.has_tables == (has_tables || n2 > 0)
    &&& out.has_images == f.has_images
    &&& slide_page(out.page, index + 1, f.texts + tf.texts, f.markdowns + tf.markdowns, out.has_tables, out.has_images)
    &&& out.warnings@.len() == ws.len()
    &&& forall|j: int| 0 <= j < ws.len() ==> page_warning(#[trigger] out.warnings@[j], ws[j])
}

proof fn lemma_steps_valid(shapes: Seq<SlideShape>, rids: Seq<Seq<char>>, o: PptxOptions)
    ensures
        forall|j: int|
            0 <= j < slide_steps_of(shapes, rids, o).len() ==> (#[trigger] slide_steps_of(shapes, rids, o)[j]).0 <= 3
                && (slide_steps_of(shapes, rids, o)[j].0 <= 2 ==> slide_steps_of(shapes, rids, o)[j].1 < shapes.len()),
{
    lemma_shapes_steps_valid(shapes, o);
}

proof fn lemma_shapes_steps_valid(shapes: Seq<SlideShape>, o: PptxOptions)
    ensures
        forall|j: int|
            0 <= j < shapes_steps(shapes, o).len() ==> (#[trigger] shapes_steps(shapes, o)[j]).0 <= 2
                && shapes_steps(shapes, o)[j].1 < shapes.len(),
    decreases shapes.len(),
{
    if shapes.len() > 0 {
        lemma_shapes_steps_valid(shapes.drop_last(), o);
        let s = shapes.last();
        let i = (shapes.len() - 1) as nat;
        let p1: Seq<(nat, nat, Seq<char>)> = if o.extract_lists && kept_items(views(s.list_items@)).len() > 0 {
            seq![(0nat, i, Seq::<char>::empty())]
        } else {
            Seq::empty()
        };
        let p2: Seq<(nat, nat, Seq<char>)> = if !is_blank(s.text@) {
            seq![(1nat, i, Seq::<char>::empty())]
        } else {
            Seq::empty()
        };
        let p3: Seq<(nat, nat, Seq<char>)> = if o.extract_images {
            views(s.embed_rids@).map_values(|r: Seq<char>| (2nat, i, r))
        } else {
            Seq::empty()
        };
        assert(shape_steps(s, i, o) == p1 + p2 + p3);
        assert forall|j: int| 0 <= j < p3.len() implies (#[trigger] p3[j]).0 <= 2 && p3[j].1 == i by {}
        assert forall|j: int| 0 <= j < (p1 + p2 + p3).len() implies (#[trigger] (p1 + p2 + p3)[j]).0 <= 2
            && (p1 + p2 + p3)[j].1 == i by {
            if j >= p1.len() + p2.len() {
                assert((p1 + p2 + p3)[j] == p3[j - p1.len() - p2.len()]);
            }
        }
        let rest = shapes_steps(shapes.drop_last(), o);
        let all = shapes_steps(shapes, o);
        if !shape_skipped(s, o) {
            assert(all == rest + (p1 + p2 + p3));
            assert forall|j: int| 0 <= j < all.len() implies (#[trigger] all[j]).0 <= 2 && all[j].1 < shapes.len() by {
                if j < rest.len() {
                    assert(all[j] == rest[j]);
                } else {
                    assert(all[j] == (p1 + p2 + p3)[j - rest.len()]);
                }
            }
        }
    }
}

proof fn lemma_tables_facts(ts: Seq<SlideTable>, y0: int)
    ensures
        ({
            let tf = tables_fold(ts, y0);
            &&& y0 <= tf.y <= y0 + tables_extent(ts)
            &&& tf.placed.len() <= ts.len()
            &&& forall|k: int| 0 <= k < tf.placed.len() ==> (#[trigger] tf.placed[k]).0 < ts.len()
        }),
    decreases ts.len(),
{
    if ts.len() > 0 {
        lemma_tables_facts(ts.drop_last(), y0);
    }
}

proof fn lemma_extent_prefix(ts: Seq<SlideTable>, i: int)
    requires
        0 <= i <= ts.len(),
    ensures
        tables_extent(ts.take(i)) <= tables_extent(ts),
    decreases ts.len() - i,
{
    if i < ts.len() {
        lemma_extent_prefix(ts.drop_last(), i);
        assert(ts.drop_last().take(i) =~= ts.take(i));
    } else {
        assert(ts.take(i) =~= ts);
    }
}

fn widest_row_exec(rows: &Vec<Vec<String>>) -> (r: usize)
    ensures
        r == widest_row(rows@),
{
    let mut w: usize = 0;
    let mut i: usize = 0;
    while i < rows.len()
        invariant
            i <= rows@.len(),
            w == widest_row(rows@.take(i as int)),
        decreases rows@.len() - i,
    {
        proof {
            assert(rows@.take(i + 1).drop_last() =~= rows@.take(i as int));
        }
        if rows[i].len() > w {
            w = rows[i].len();
        }
        i = i + 1;
    }
    assert(rows@.take(i as int) =~= rows@);
    w
}

fn table_element_exec(slide: u32, k: u32, t: &SlideTable, idx: usize, y: i64, path: &String) -> (e: Element)
    requires
        k < u32::MAX,
        idx < usize::MAX,
        y + t.rows@.len() * 24 <= i64::MAX,
        0 <= y,
    ensures
        on_slide(e, slide as nat, k as nat),
        table_element(e, *t, idx as nat, y as int, path@),
{
    let rows = t.rows.len();
    let cols = widest_row_exec(&t.rows);
    let h: i64 = (rows as i64) * 24;
    let mut extra: Vec<(String, String)> = Vec::new();
    extra.push((to_owned_string("rows"), decimal_string(rows as u64)));
    extra.push((to_owned_string("columns"), decimal_string(cols as u64)));
    extra.push((to_owned_string("csv"), t.csv.clone()));
    let number: usize = idx + 1;
    let raw = prefixed("table_", &decimal_string(number as u64));
    Element {
        element_id: slide_id(slide, k + 1),
        element_type: ElementType::Table,
        tag: Some(to_owned_string("a:tbl")),
        role: Some(to_owned_string("slide_table")),
        reading_order: Some(k + 1),
        global_order: Some(k + 1),
        bbox: Some(BBox { x0: 0, y0: y, x1: 1000, y1: y + h }),
        text: Some(join_strings(&t.cell_texts, " | ")),
        markdown: Some(t.markdown.clone()),
        html: Some(t.html.clone()),
        normalized_text: Some(t.normalized_text.clone()),
        raw: Some(raw),
        items: Vec::new(),
        exclude_from_chunks: false,
        table_linearized: Vec::new(),
        provenance: slide_provenance("pptx_extract_tables", "slide", path.as_str()),
        confidence_permille: default_confidence(),
        warnings: Vec::new(),
        extra,
    }
}

fn notes_element_exec(slide: u32, k: u32, y: i64, path: &String, text: &String) -> (e: Element)
    requires
        k < u32::MAX,
        y + 100 <= i64::MAX,
    ensures
        on_slide(e, slide as nat, k as nat),
        notes_element(e, y as int, path@, text@),
{
    Element {
        element_id: slide_id(slide, k + 1),
        element_type: ElementType::Text,
        tag: Some(to_owned_string("p:notes")),
        role: Some(to_owned_string("speaker_notes")),
        reading_order: Some(k + 1),
        global_order: Some(k + 1),
        bbox: Some(BBox { x0: 0, y0: y, x1: 1000, y1: y + 100 }),
        text: Some(text.clone()),
        markdown: Some(text.clone()),
        html: None,
        normalized_text: Some(text.clone()),
        raw: Some(path.clone()),
        items: Vec::new(),
        exclude_from_chunks: false,
        table_linearized: Vec::new(),
        provenance: slide_provenance("pptx_extract_notes", "notes", path.as_str()),
        confidence_permille: default_confidence(),
        warnings: Vec::new(),
        extra: Vec::new(),
    }
}

/// Slide `index` (from 0) of a presentation as a page. Reading the shapes in turn
/// (when shapes or text boxes are extracted), each shape that is not a passed-over
/// title gives its list (where lists are extracted and an item has text), its text
/// (a heading for the title) where it is not blank, and its images; then come the
/// images the slide refers to itself, each image id once, an image that could not
/// be read leaving a warning; then the tables that have a row and a cell, and last
/// the speaker notes where they are extracted, found and not blank. Elements are
/// numbered on the slide from 1 and placed down a running offset from 16. The page
/// joins the text and markdown of the lists, texts and tables, and tells whether
/// the document has shown tables and images so far.
#[verifier::spinoff_prover]
#[verifier::rlimit(80)]
pub fn build_pptx_slide(
    index: usize,
    content: &SlideContent,
    images: &Vec<SlideImage>,
    options: &PptxOptions,
    has_tables: bool,
    has_images: bool,
) -> (out: SlideOutput)
    requires
        slide_fits(index as nat, *content, *options),
        images@.len() == unique_rids(content_steps(*content, *options)).len(),
    ensures
        pptx_slide(out, index as nat, *content, images@, *options, has_tables, has_images),
{
    let slide: u32 = (index + 1) as u32;
    let ghost sn: nat = (index + 1) as nat;
    let steps = slide_steps(&content.shapes, &content.slide_rids, options);
    let ghost steps_v = content_steps(*content, *options);
    let ghost f = fold_steps(steps_v, content.shapes@, image_views(images@), has_images);
    proof {
        lemma_steps_valid(content.shapes@, views(content.slide_rids@), *options);
        lemma_fold_facts(steps_v, content.shapes@, image_views(images@), has_images);
    }
    let mut warnings: Vec<Diagnostic> = Vec::new();
    if content.has_charts && options.extract_charts_metadata {
        warnings.push(
            page_warning_exec(
                "PPTX_CHART_EXTRACTION_PARTIAL",
                to_owned_string("Извлечение метаданных диаграмм PPTX выполнено частично (MVP)."),
            ),
        );
    }
    let ghost wc = warnings@;
    let r = read_steps(slide, &content.shapes, &content.slide_path, &steps, images, has_images, &mut warnings);
    let ghost ws_steps = warnings@;
    let hi = r.has_images;
    let y0: i64 = r.y;
    let mut elements = r.elements;
    let mut texts = r.texts;
    let mut mds = r.markdowns;
    let ghost n1 = f.items.len();
    let ghost ts = content.tables@;
    let ghost path = content.slide_path@;
    let mut y: i64 = y0;
    let mut any = false;
    let mut j: usize = 0;
    assert(ts.take(0) =~= Seq::<SlideTable>::empty());
    assert(f.texts + Seq::<Seq<char>>::empty() =~= f.texts);
    assert(f.markdowns + Seq::<Seq<char>>::empty() =~= f.markdowns);
    while j < content.tables.len()
        invariant
            j <= ts.len(),
            ts == content.tables@,
            path == content.slide_path@,
            slide as nat == sn,
            n1 == f.items.len(),
            f.y == y0,
            16 <= y0,
            y0 + tables_extent(ts) + 200 <= i64::MAX,
            n1 + ts.len() + 1 < u32::MAX,
            ({
                let tf = tables_fold(ts.take(j as int), y0 as int);
                &&& elements@.len() == n1 + tf.placed.len()
                &&& forall|k: int|
                    0 <= k < n1 ==> step_element(#[trigger] elements@[k], sn, k as nat, f.items[k], content.shapes@, path)
                &&& forall|k: int|
                    0 <= k < tf.placed.len() ==> on_slide(#[trigger] elements@[n1 + k], sn, (n1 + k) as nat)
                        && table_element(elements@[n1 + k], ts[tf.placed[k].0 as int], tf.placed[k].0, tf.placed[k].1, path)
                &&& y == tf.y
                &&& views(texts@) == f.texts + tf.texts
                &&& views(mds@) == f.markdowns + tf.markdowns
                &&& any == (tf.placed.len() > 0)
            }),
        decreases ts.len() - j,
    {
        let ghost tf0 = tables_fold(ts.take(j as int), y0 as int);
        proof {
            assert(ts.take(j + 1).drop_last() =~= ts.take(j as int));
            assert(ts.take(j + 1).last() == ts[j as int]);
            lemma_tables_facts(ts.take(j as int), y0 as int);
            lemma_extent_prefix(ts, j + 1);
        }
        let ghost e0 = elements@;
        let ghost t0 = views(texts@);
        let ghost m0 = views(mds@);
        let t = &content.tables[j];
        if t.rows.len() > 0 && widest_row_exec(&t.rows) > 0 {
            let n: u32 = elements.len() as u32;
            let e = table_element_exec(slide, n, t, j, y, &content.slide_path);
            texts.push(text_of(&e.text));
            mds.push(t.markdown.clone());
            elements.push(e);
            let h: i64 = (t.rows.len() as i64) * 24;
            y = y + h + 16;
            any = true;
            proof {
                let tf1 = tables_fold(ts.take(j + 1), y0 as int);
                assert(tf1.placed == tf0.placed.push((j as nat, tf0.y)));
                assert forall|k: int| 0 <= k < tf1.placed.len() implies on_slide(#[trigger] elements@[n1 + k], sn, (n1 + k) as nat)
                    && table_element(elements@[n1 + k], ts[tf1.placed[k].0 as int], tf1.placed[k].0, tf1.placed[k].1, path) by {
                    if k < tf0.placed.len() {
                        assert(elements@[n1 + k] == e0[n1 + k]);
                    }
                }
                assert forall|k: int| 0 <= k < n1 implies step_element(#[trigger] elements@[k], sn, k as nat, f.items[k], content.shapes@, path) by {
                    assert(elements@[k] == e0[k]);
                }
                assert(views(texts@) =~= t0.push(table_text(ts[j as int])));
                assert(views(mds@) =~= m0.push(ts[j as int].markdown@));
                assert(f.texts + tf1.texts =~= (f.texts + tf0.texts).push(table_text(ts[j as int])));
                assert(f.markdowns + tf1.markdowns =~= (f.markdowns + tf0.markdowns).push(ts[j as int].markdown@));
            }
        }
        j = j + 1;
    }
    assert(ts.take(j as int) =~= ts);
    let ghost tf = tables_fold(ts, y0 as int);
    proof {
        lemma_tables_facts(ts, y0 as int);
    }
    let ghost before_notes = warnings@;
    if options.extract_notes {
        match &content.notes {
            SlideNotes::Absent => {},
            SlideNotes::Missing => {
                warnings.push(
                    page_warning_exec(
                        "PPTX_NOTES_SKIPPED",
                        to_owned_string("Связь notesSlide обнаружена, но notes XML не найден."),
                    ),
                );
            },
            SlideNotes::Found { path, text } => {
                if !str_is_blank(text.as_str()) {
                    let n: u32 = elements.len() as u32;
                    let ghost e0 = elements@;
                    elements.push(notes_element_exec(slide, n, y, path, text));
                    proof {
                        assert forall|k: int| 0 <= k < n1 implies step_element(#[trigger] elements@[k], sn, k as nat, f.items[k], content.shapes@, content.slide_path@) by {
                            assert(elements@[k] == e0[k]);
                        }
                        assert forall|k: int| 0 <= k < tf.placed.len() implies on_slide(#[trigger] elements@[n1 + k], sn, (n1 + k) as nat)
                            && table_element(elements@[n1 + k], ts[tf.placed[k].0 as int], tf.placed[k].0, tf.placed[k].1, content.slide_path@) by {
                            assert(elements@[n1 + k] == e0[n1 + k]);
                        }
                    }
                }
            },
        }
    }
    let ht = has_tables || any;
    let page = Page {
        page_number: slide,
        page_type: PageType::Slide,
        width: None,
        height: None,
        page_image_asset_id: None,
        page_profile: PageProfile {
            content_mode: ContentMode::Slide,
            has_native_text: texts.len() > 0,
            has_ocr_required_regions: false,
            has_tables: ht,
            has_images: hi,
            has_formulas: false,
            has_handwriting: false,
            language: Some(to_owned_string("ru")),
            confidence_permille: 930,
        },
        elements,
        text: join_strings(&texts, "\n"),
        markdown: join_strings(&mds, "\n\n"),
        html: String::new(),
        warnings: Vec::new(),
    };
    proof {
        let ws = chart_warnings(*content, *options) + f.warnings + notes_warnings(*content, *options);
        assert(wc.len() == chart_warnings(*content, *options).len());
        assert forall|i: int| 0 <= i < ws.len() implies page_warning(#[trigger] warnings@[i], ws[i]) by {
            if i < wc.len() {
                assert(warnings@[i] == ws_steps[i]);
                assert(ws_steps[i] == wc[i]);
            } else if i < wc.len() + f.warnings.len() {
                assert(warnings@[i] == ws_steps[i]);
                assert(ws[i] == f.warnings[i - wc.len()]);
                assert(page_warning(ws_steps[wc.len() + (i - wc.len())], f.warnings[i - wc.len()]));
            }
        }
    }
    SlideOutput { page, warnings, has_tables: ht, has_images: hi }
}

/// A slide of the presentation as it was read.
pub enum PptxSlideRead {
    /// The package does not hold the slide part at this path.
    Missing(String),
    /// The slide made a page (see [`build_pptx_slide`]).
    Read(SlideOutput),
}

/// What opening a presentation gave.
pub enum PptxPackage {
    /// The package could not be opened, for this reason.
    Unopenable(String),
    /// Its `presentation.xml` could not be parsed, for this reason.
    Unparsable(String),
    /// The slides that `presentation.xml` lists, in order, and the assets stored for
    /// their images, in the order they were stored.
    Slides(Vec<PptxSlideRead>, Vec<Asset>),
}

/// The pages of the slides that were read, in order.
pub open spec fn pptx_pages(slides: Seq<PptxSlideRead>) -> Seq<Page>
    decreases slides.len(),
{
    if slides.len() == 0 {
        Seq::empty()
    } else {
        let rest = pptx_pages(slides.drop_last());
        match slides.last() {
            PptxSlideRead::Missing(_) => rest,
            PptxSlideRead::Read(out) => rest.push(out.page),
        }
    }
}

/// The document warnings of the slides, in order: `(Some(d), _)` for a warning that
/// reading a slide raised, `(None, path)` for a slide part that was not there.
pub open spec fn pptx_notices(slides: Seq<PptxSlideRead>) -> Seq<(Option<Diagnostic>, Seq<char>)>
    decreases slides.len(),
{
    if slides.len() == 0 {
        Seq::empty()
    } else {
        let rest = pptx_notices(slides.drop_last());
        match slides.last() {
            PptxSlideRead::Missing(p) => rest.push((None, p@)),
            PptxSlideRead::Read(out) => rest + out.warnings@.map_values(|d: Diagnostic| (Some(d), Seq::<char>::empty())),
        }
    }
}

pub open spec fn notice_is(d: Diagnostic, n: (Option<Diagnostic>, Seq<char>)) -> bool {
    match n.0 {
        Some(g) => d == g,
        None => page_warning(d, ("PPTX_SLIDE_PARSE_FAILED"@, "Не найден XML слайда: "@ + n.1)),
    }
}

/// Whether a slide that was read has shown tables.
pub open spec fn any_tables(slides: Seq<PptxSlideRead>) -> bool {
    exists|i: int| 0 <= i < slides.len() && (#[trigger] slides[i] matches PptxSlideRead::Read(out) && out.has_tables)
}

/// Whether a slide that was read has shown images.
pub open spec fn any_images(slides: Seq<PptxSlideRead>) -> bool {
    exists|i: int| 0 <= i < slides.len() && (#[trigger] slides[i] matches PptxSlideRead::Read(out) && out.has_images)
}

/// A model that holds no page, asset or warning and failed with the one error
/// `code`, `message`, after the given number of stages (the opening of the package).
pub open spec fn pptx_failed(m: DocumentModel, code: Seq<char>, message: Seq<char>, opened: bool) -> bool {
    &&& m.pages@.len() == 0
    &&& m.assets@.len() == 0
    &&& m.warnings@.len() == 0
    &&& m.errors@.len() == 1
    &&& document_notice(m.errors@[0], "error"@, code, message)
    &&& m.processing.status == ProcessingStatus::Failed
    &&& m.processing.stages@.len() == (if opened { 1int } else { 0int })
    &&& opened ==> is_stage(m.processing.stages@[0], "pptx_open_package"@, "pptx_ooxml_parser"@, 1)
    &&& m.stats == stats_for(Seq::empty())
}

/// The stages of a presentation whose slides were read.
pub open spec fn pptx_stages(m: DocumentModel) -> bool {
    let st = m.processing.stages@;
    &&& st.len() == 8
    &&& is_stage(st[0], "pptx_open_package"@, "pptx_ooxml_parser"@, 1)
    &&& is_stage(st[1], "pptx_parse_presentation"@, "pptx_ooxml_parser"@, 1)
    &&& is_stage(st[2], "pptx_parse_slides"@, "pptx_ooxml_parser"@, 1)
    &&& is_stage(st[3], "pptx_extract_text"@, "pptx_ooxml_parser"@, 1)
    &&& is_stage(st[4], "pptx_extract_tables"@, "pptx_ooxml_parser"@, 1)
    &&& is_stage(st[5], "pptx_extract_media"@, "pptx_ooxml_parser"@, 1)
    &&& is_stage(st[6], "pptx_extract_notes"@, "pptx_ooxml_parser"@, 1)
    &&& is_stage(st[7], "pptx_chunking"@, "semantic_chunker"@, 0)
}

/// `m` is the model of the presentation `classification` read with options `o`,
/// opening it having given `package`.
pub open spec fn pptx_document(
    m: DocumentModel,
    classification: FileClassification,
    o: PptxOptions,
    package: PptxPackage,
    processed_at: Option<String>,
) -> bool {
    &&& model_identity(m, classification, DocumentFormat::Pptx, ContentMode::Presentation, processed_at)
    &&& m.coordinate_system.unit@ == "synthetic"@
    &&& m.chunks@.len() == 0
    &&& if !o.enabled {
        &&& m.pages@.len() == 0
        &&& m.assets@.len() == 0
        &&& m.errors@.len() == 0
        &&& m.warnings@.len() == 1
        &&& document_notice(m.warnings@[0], "warning"@, "PPTX_EXTRACTION_DISABLED"@, "PPTX extraction disabled by config"@)
        &&& m.processing.status == ProcessingStatus::Complete
        &&& m.processing.stages@.len() == 0
        &&& m.stats == stats_for(Seq::empty())
    } else {
        match package {
            PptxPackage::Unopenable(err) => pptx_failed(
                m,
                "PPTX_INVALID_PACKAGE"@,
                "Не удалось открыть PPTX пакет: "@ + err@,
                false,
            ),
            PptxPackage::Unparsable(err) => pptx_failed(
                m,
                "PPTX_PRESENTATION_XML_MISSING"@,
                "Не удалось разобрать presentation.xml: "@ + err@,
                true,
            ),
            PptxPackage::Slides(slides, assets) => if slides@.len() == 0 {
                pptx_failed(
                    m,
                    "PPTX_PRESENTATION_XML_MISSING"@,
                    "В PPTX не найдены ссылки на слайды в presentation.xml."@,
                    true,
                )
            } else {
                &&& m.pages@ == pptx_pages(slides@)
                &&& m.warnings@.len() == pptx_notices(slides@).len()
                &&& forall|j: int| 0 <= j < m.warnings@.len() ==> notice_is(#[trigger] m.warnings@[j], pptx_notices(slides@)[j])
                &&& m.assets@ == registered_assets(assets@)
                &&& m.document_profile.has_tables == any_tables(slides@)
                &&& m.document_profile.has_images == any_images(slides@)
                &&& !m.document_profile.has_formulas
                &&& pptx_stages(m)
                &&& if m.pages@.len() == 0 {
                    &&& m.errors@.len() == 1
                    &&& document_notice(m.errors@[0], "error"@, "PPTX_SLIDE_PARSE_FAILED"@, "Не удалось извлечь ни одного слайда из PPTX."@)
                    &&& m.processing.status == ProcessingStatus::Failed
                } else {
                    &&& m.errors@.len() == 0
                    &&& m.processing.status == ProcessingStatus::Complete
                }
                &&& m.stats == stats_for(m.pages@)
                &&& m.processing.total_duration_ms == Some(8u64)
            },
        }
    }
}

proof fn lemma_pages_notices_step(slides: Seq<PptxSlideRead>, k: int)
    requires
        0 <= k < slides.len(),
    ensures
        pptx_pages(slides.take(k + 1)) == match slides[k] {
            PptxSlideRead::Missing(_) => pptx_pages(slides.take(k)),
            PptxSlideRead::Read(out) => pptx_pages(slides.take(k)).push(out.page),
        },
        pptx_notices(slides.take(k + 1)) == match slides[k] {
            PptxSlideRead::Missing(p) => pptx_notices(slides.take(k)).push((None, p@)),
            PptxSlideRead::Read(out) => pptx_notices(slides.take(k)) + out.warnings@.map_values(
                |d: Diagnostic| (Some(d), Seq::<char>::empty()),
            ),
        },
{
    assert(slides.take(k + 1).drop_last() =~= slides.take(k));
    assert(slides.take(k + 1).last() == slides[k]);
}

/// The model of a presentation from what opening it gave. When extraction is
/// disabled the package is not looked at and the model says so in a warning. A
/// package that does not open, or whose `presentation.xml` does not parse or lists
/// no slide, fails the model with one error. Otherwise the pages are those of the
/// slides that were read, in order; a slide part that was not there leaves a
/// warning in the slide's place among the slides' own warnings; the stored assets
/// are kept once per id; the profile tells whether tables and images were shown;
/// and a presentation of which no slide could be read fails with one error.
#[verifier::spinoff_prover]
#[verifier::rlimit(80)]
pub fn build_pptx_document(
    classification: &FileClassification,
    options: &PptxOptions,
    package: PptxPackage,
    processed_at: Option<String>,
) -> (m: DocumentModel)
    requires
        classification.input_path@.len() < 0x7fff_ffff_ffff_ffff,
        package matches PptxPackage::Slides(slides, _) ==> stats_fit_spec(pptx_pages(slides@)),
    ensures
        pptx_document(m, *classification, *options, package, processed_at),
{
    let ghost pkg = package;
    let mut m = base_document_model(
        classification,
        DocumentFormat::Pptx,
        ContentMode::Presentation,
        PageType::Slide,
        processed_at,
    );
    m.coordinate_system.unit = to_owned_string("synthetic");
    m.pages = Vec::new();
    if !options.enabled {
        m.warnings.push(diagnostic("PPTX_EXTRACTION_DISABLED", "warning", "document", "PPTX extraction disabled by config"));
        return m;
    }
    match package {
        PptxPackage::Unopenable(err) => {
            m.errors.push(diagnostic("PPTX_INVALID_PACKAGE", "error", "document", prefixed("Не удалось открыть PPTX пакет: ", &err).as_str()));
            m.processing.status = ProcessingStatus::Failed;
            m
        },
        PptxPackage::Unparsable(err) => {
            m.processing.stages.push(stage("pptx_open_package", "pptx_ooxml_parser", 1));
            m.errors.push(
                diagnostic(
                    "PPTX_PRESENTATION_XML_MISSING",
                    "error",
                    "document",
                    prefixed("Не удалось разобрать presentation.xml: ", &err).as_str(),
                ),
            );
            m.processing.status = ProcessingStatus::Failed;
            update_stats(&mut m);
            m
        },
        PptxPackage::Slides(slides, assets) => {
            m.processing.stages.push(stage("pptx_open_package", "pptx_ooxml_parser", 1));
            if slides.len() == 0 {
                m.errors.push(
                    diagnostic(
                        "PPTX_PRESENTATION_XML_MISSING",
                        "error",
                        "document",
                        "В PPTX не найдены ссылки на слайды в presentation.xml.",
                    ),
                );
                m.processing.status = ProcessingStatus::Failed;
                update_stats(&mut m);
                return m;
            }
            m.processing.stages.push(stage("pptx_parse_presentation", "pptx_ooxml_parser", 1));
            let ghost all = slides@;
            assert(all.len() == slides.len());
            let mut rest = slides;
            let mut pages: Vec<Page> = Vec::new();
            let mut warnings: Vec<Diagnostic> = Vec::new();
            let mut ht = false;
            let mut hi = false;
            let mut k: usize = 0;
            assert(all.take(0) =~= Seq::<PptxSlideRead>::empty());
            while rest.len() > 0
                invariant
                    k + rest@.len() == all.len(),
                    all.len() <= usize::MAX,
                    rest@ == all.skip(k as int),
                    pages@ == pptx_pages(all.take(k as int)),
                    warnings@.len() == pptx_notices(all.take(k as int)).len(),
                    forall|j: int| 0 <= j < warnings@.len() ==> notice_is(#[trigger] warnings@[j], pptx_notices(all.take(k as int))[j]),
                    ht == any_tables(all.take(k as int)),
                    hi == any_images(all.take(k as int)),
                decreases rest@.len(),
            {
                proof {
                    lemma_pages_notices_step(all, k as int);
                    assert(all.skip(k as int)[0] == all[k as int]);
                }
                let ghost w0 = warnings@;
                let ghost n0 = pptx_notices(all.take(k as int));
                let s = rest.remove(0);
                match s {
                    PptxSlideRead::Missing(path) => {
                        warnings.push(page_warning_exec("PPTX_SLIDE_PARSE_FAILED", prefixed("Не найден XML слайда: ", &path)));
                        proof {
                            let n1 = pptx_notices(all.take(k + 1));
                            assert forall|j: int| 0 <= j < warnings@.len() implies notice_is(#[trigger] warnings@[j], n1[j]) by {
                                if j < w0.len() {
                                    assert(warnings@[j] == w0[j]);
                                }
                            }
                            assert forall|i: int| 0 <= i < k + 1 && (#[trigger] all.take(k + 1)[i] matches PptxSlideRead::Read(out) && out.has_tables) implies
                                (all.take(k as int)[i] matches PptxSlideRead::Read(out) && out.has_tables) by {
                                assert(all.take(k + 1)[i] == all[i]);
                            }
                            assert forall|i: int| 0 <= i < k + 1 && (#[trigger] all.take(k + 1)[i] matches PptxSlideRead::Read(out) && out.has_images) implies
                                (all.take(k as int)[i] matches PptxSlideRead::Read(out) && out.has_images) by {
                                assert(all.take(k + 1)[i] == all[i]);
                            }
                            if any_tables(all.take(k as int)) {
                                let i = choose|i: int| 0 <= i < k && (#[trigger] all.take(k as int)[i] matches PptxSlideRead::Read(out) && out.has_tables);
                                assert(all.take(k + 1)[i] == all.take(k as int)[i]);
                            }
                            if any_images(all.take(k as int)) {
                                let i = choose|i: int| 0 <= i < k && (#[trigger] all.take(k as int)[i] matches PptxSlideRead::Read(out) && out.has_images);
                                assert(all.take(k + 1)[i] == all.take(k as int)[i]);
                            }
                        }
                    },
                    PptxSlideRead::Read(out) => {
                        let ghost o = out;
                        let SlideOutput { page, warnings: ws, has_tables, has_images } = out;
                        pages.push(page);
                        let mut ws = ws;
                        let ghost wsv = ws@;
                        assert(wsv.len() == ws.len());
                        let mut i: usize = 0;
                        while ws.len() > 0
                            invariant
                                i + ws@.len() == wsv.len(),
                                wsv.len() <= usize::MAX,
                                ws@ == wsv.skip(i as int),
                                warnings@.len() == w0.len() + i,
                                forall|j: int| 0 <= j < w0.len() ==> #[trigger] warnings@[j] == w0[j],
                                forall|j: int| 0 <= j < i ==> #[trigger] warnings@[w0.len() + j] == wsv[j],
                            decreases ws@.len(),
                        {
                            assert(wsv.skip(i as int)[0] == wsv[i as int]);
                            let d = ws.remove(0);
                            warnings.push(d);
                            i = i + 1;
                            assert(wsv.skip(i as int) =~= wsv.skip(i - 1).drop_first());
                        }
                        ht = ht || has_tables;
                        hi = hi || has_images;
                        proof {
                            let n1 = pptx_notices(all.take(k + 1));
                            assert(n1 == n0 + wsv.map_values(|d: Diagnostic| (Some(d), Seq::<char>::empty())));
                            assert forall|j: int| 0 <= j < warnings@.len() implies notice_is(#[trigger] warnings@[j], n1[j]) by {
                                if j >= w0.len() {
                                    assert(warnings@[w0.len() + (j - w0.len())] == wsv[j - w0.len()]);
                                }
                            }
                            if has_tables {
                                assert(all.take(k + 1)[k as int] == all[k as int]);
                            }
                            if has_images {
                                assert(all.take(k + 1)[k as int] == all[k as int]);
                            }
                            assert forall|i: int| 0 <= i < k && (#[trigger] all.take(k + 1)[i] matches PptxSlideRead::Read(out) && out.has_tables) implies
                                (all.take(k as int)[i] matches PptxSlideRead::Read(out) && out.has_tables) by {
                                assert(all.take(k + 1)[i] == all[i]);
                            }
                            assert forall|i: int| 0 <= i < k && (#[trigger] all.take(k + 1)[i] matches PptxSlideRead::Read(out) && out.has_images) implies
                                (all.take(k as int)[i] matches PptxSlideRead::Read(out) && out.has_images) by {
                                assert(all.take(k + 1)[i] == all[i]);
                            }
                            if any_tables(all.take(k as int)) {
                                let i = choose|i: int| 0 <= i < k && (#[trigger] all.take(k as int)[i] matches PptxSlideRead::Read(out) && out.has_tables);
                                assert(all.take(k + 1)[i] == all.take(k as int)[i]);
                            }
                            if any_images(all.take(k as int)) {
                                let i = choose|i: int| 0 <= i < k && (#[trigger] all.take(k as int)[i] matches PptxSlideRead::Read(out) && out.has_images);
                                assert(all.take(k + 1)[i] == all.take(k as int)[i]);
                            }
                        }
                    },
                }
                k = k + 1;
                proof {
                    assert(all.skip(k as int) =~= all.skip(k - 1).drop_first());
                }
            }
            assert(all.take(k as int) =~= all);
            m.pages = pages;
            m.warnings = warnings;
            m.assets = register_assets(assets);
            m.document_profile.has_tables = ht;
            m.document_profile.has_images = hi;
            m.document_profile.has_formulas = false;
            m.processing.stages.push(stage("pptx_parse_slides", "pptx_ooxml_parser", 1));
            m.processing.stages.push(stage("pptx_extract_text", "pptx_ooxml_parser", 1));
            m.processing.stages.push(stage("pptx_extract_tables", "pptx_ooxml_parser", 1));
            m.processing.stages.push(stage("pptx_extract_media", "pptx_ooxml_parser", 1));
            m.processing.stages.push(stage("pptx_extract_notes", "pptx_ooxml_parser", 1));
            m.processing.stages.push(stage("pptx_chunking", "semantic_chunker", 0));
            if m.pages.len() == 0 {
                m.errors.push(
                    diagnostic(
                        "PPTX_SLIDE_PARSE_FAILED",
                        "error",
                        "document",
                        "Не удалось извлечь ни одного слайда из PPTX.",
                    ),
                );
                m.processing.status = ProcessingStatus::Failed;
            }
            update_stats(&mut m);
            m.processing.total_duration_ms = Some(m.processing.stages.len() as u64);
            m
        },
    }
}


/// A slide that `presentation.xml` lists, as the package gave it.
pub enum PptxSlideSource {
    /// The package does not hold the slide part at this path.
    Missing(String),
    /// The slide's content, and what became of each image it refers to (see
    /// [`pptx_image_requests`]).
    Found(SlideContent, Vec<SlideImage>),
}

/// Each slide that was found fits the counters of its page, and comes with one
/// outcome per image it refers to.
pub open spec fn slide_sources_fit(sources: Seq<PptxSlideSource>, o: PptxOptions) -> bool {
    forall|i: int|
        0 <= i < sources.len() ==> match #[trigger] sources[i] {
            PptxSlideSource::Found(c, imgs) => slide_fits(i as nat, c, o) && imgs@.len() == unique_rids(
                content_steps(c, o),
            ).len(),
            PptxSlideSource::Missing(_) => true,
        }
}

/// `r` is the slide `s`, the `i`-th of the presentation (from 0), read after slides
/// that showed tables and images as `ht` and `hi` say: a missing part stays
/// missing; a slide that was found is the page numbered `i + 1` that
/// [`build_pptx_slide`] makes of it.
pub open spec fn slide_read_is(r: PptxSlideRead, s: PptxSlideSource, i: nat, o: PptxOptions, ht: bool, hi: bool) -> bool {
    match s {
        PptxSlideSource::Missing(p) => r == PptxSlideRead::Missing(p),
        PptxSlideSource::Found(c, imgs) => r matches PptxSlideRead::Read(out) && pptx_slide(out, i, c, imgs@, o, ht, hi)
            && out.page.page_number == i + 1,
    }
}

/// `reads` are the slides `sources`, read in order, each after those before it.
pub open spec fn slides_read(reads: Seq<PptxSlideRead>, sources: Seq<PptxSlideSource>, o: PptxOptions) -> bool {
    &&& reads.len() == sources.len()
    &&& forall|i: int|
        0 <= i < sources.len() ==> slide_read_is(
            #[trigger] reads[i],
            sources[i],
            i as nat,
            o,
            any_tables(reads.take(i)),
            any_images(reads.take(i)),
        )
}

proof fn lemma_any_push(reads: Seq<PptxSlideRead>, x: PptxSlideRead)
    ensures
        any_tables(reads.push(x)) == (any_tables(reads) || (x matches PptxSlideRead::Read(out) && out.has_tables)),
        any_images(reads.push(x)) == (any_images(reads) || (x matches PptxSlideRead::Read(out) && out.has_images)),
{
    let p = reads.push(x);
    assert(p[reads.len() as int] == x);
    if any_tables(reads) {
        let i = choose|i: int| 0 <= i < reads.len() && (#[trigger] reads[i] matches PptxSlideRead::Read(out) && out.has_tables);
        assert(p[i] == reads[i]);
    }
    if any_images(reads) {
        let i = choose|i: int| 0 <= i < reads.len() && (#[trigger] reads[i] matches PptxSlideRead::Read(out) && out.has_images);
        assert(p[i] == reads[i]);
    }
    if any_tables(p) {
        let i = choose|i: int| 0 <= i < p.len() && (#[trigger] p[i] matches PptxSlideRead::Read(out) && out.has_tables);
        if i < reads.len() {
            assert(p[i] == reads[i]);
        }
    }
    if any_images(p) {
        let i = choose|i: int| 0 <= i < p.len() && (#[trigger] p[i] matches PptxSlideRead::Read(out) && out.has_images);
        if i < reads.len() {
            assert(p[i] == reads[i]);
        }
    }
}

/// Reads the slides in order: slide `i` (from 0) becomes page `i + 1` (see
/// [`build_pptx_slide`]), told whether the slides before it showed tables and
/// images; a missing slide part stays missing.
#[verifier::spinoff_prover]
pub fn pptx_slide_reads(sources: Vec<PptxSlideSource>, options: &PptxOptions) -> (r: Vec<PptxSlideRead>)
    requires
        slide_sources_fit(sources@, *options),
    ensures
        slides_read(r@, sources@, *options),
{
    let ghost all = sources@;
    let mut out: Vec<PptxSlideRead> = Vec::new();
    let mut rest = sources;
    let mut i: usize = 0;
    let mut ht = false;
    let mut hi = false;
    assert(all.len() == rest.len());
    while rest.len() > 0
        invariant
            i + rest@.len() == all.len(),
            all.len() <= usize::MAX,
            rest@ == all.skip(i as int),
            slide_sources_fit(all, *options),
            out@.len() == i,
            forall|j: int|
                0 <= j < i ==> slide_read_is(
                    #[trigger] out@[j],
                    all[j],
                    j as nat,
                    *options,
                    any_tables(out@.take(j)),
                    any_images(out@.take(j)),
                ),
            ht == any_tables(out@),
            hi == any_images(out@),
        decreases rest@.len(),
    {
        assert(all.skip(i as int)[0] == all[i as int]);
        let src = rest.remove(0);
        let ghost o0 = out@;
        let read = match src {
            PptxSlideSource::Missing(p) => PptxSlideRead::Missing(p),
            PptxSlideSource::Found(c, imgs) => {
                assert(match all[i as int] {
                    PptxSlideSource::Found(c, imgs) => slide_fits(i as nat, c, *options),
                    _ => true,
                });
                let o = build_pptx_slide(i, &c, &imgs, options, ht, hi);
                assert(o.page.page_number == i + 1);
                PptxSlideRead::Read(o)
            },
        };
        proof {
            lemma_any_push(o0, read);
        }
        let t = match &read {
            PptxSlideRead::Read(o) => o.has_tables,
            _ => false,
        };
        let m = match &read {
            PptxSlideRead::Read(o) => o.has_images,
            _ => false,
        };
        out.push(read);
        ht = ht || t;
        hi = hi || m;
        proof {
            assert(out@.take(i as int) =~= o0);
            assert forall|j: int| 0 <= j < i + 1 implies slide_read_is(
                #[trigger] out@[j],
                all[j],
                j as nat,
                *options,
                any_tables(out@.take(j)),
                any_images(out@.take(j)),
            ) by {
                if j < i {
                    assert(out@[j] == o0[j]);
                    assert(out@.take(j) =~= o0.take(j));
                }
            }
            assert(out@ =~= o0.push(read));
        }
        i = i + 1;
        assert(all.skip(i as int) =~= all.skip(i - 1).drop_first());
    }
    out
}

/// What opening a presentation gave, before its slides were read.
pub enum PptxSource {
    /// The package could not be opened, for this reason.
    Unopenable(String),
    /// Its `presentation.xml` could not be parsed, for this reason.
    Unparsable(String),
    /// The slides that `presentation.xml` lists, in order, and the assets stored for
    /// their images, in the order they were stored.
    Slides(Vec<PptxSlideSource>, Vec<Asset>),
}

/// The model of a presentation from what opening it gave: the slides are read in
/// order (see [`pptx_slide_reads`]), so that the page of the `i`-th slide (from 0)
/// is numbered `i + 1`, and the model is built from them (see
/// [`build_pptx_document`]).
#[verifier::spinoff_prover]
pub fn build_pptx_presentation(
    classification: &FileClassification,
    options: &PptxOptions,
    source: PptxSource,
    processed_at: Option<String>,
) -> (m: DocumentModel)
    requires
        classification.input_path@.len() < 0x7fff_ffff_ffff_ffff,
        source matches PptxSource::Slides(sources, _) ==> {
            &&& slide_sources_fit(sources@, *options)
            &&& forall|reads: Seq<PptxSlideRead>| #[trigger] slides_read(reads, sources@, *options) ==> stats_fit_spec(pptx_pages(reads))
        },
    ensures
        match source {
            PptxSource::Unopenable(e) => pptx_document(m, *classification, *options, PptxPackage::Unopenable(e), processed_at),
            PptxSource::Unparsable(e) => pptx_document(m, *classification, *options, PptxPackage::Unparsable(e), processed_at),
            PptxSource::Slides(sources, assets) => exists|reads: Vec<PptxSlideRead>|
                slides_read(reads@, sources@, *options) && pptx_document(
                    m,
                    *classification,
                    *options,
                    PptxPackage::Slides(reads, assets),
                    processed_at,
                ),
        },
{
    match source {
        PptxSource::Unopenable(e) => build_pptx_document(classification, options, PptxPackage::Unopenable(e), processed_at),
        PptxSource::Unparsable(e) => build_pptx_document(classification, options, PptxPackage::Unparsable(e), processed_at),
        PptxSource::Slides(sources, assets) => {
            let reads = pptx_slide_reads(sources, options);
            let ghost rv = reads;
            let m = build_pptx_document(classification, options, PptxPackage::Slides(reads, assets), processed_at);
            assert(slides_read(rv@, sources@, *options));
            m
        },
    }
}

} // verus!
