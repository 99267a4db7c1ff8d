//! Spreadsheets (XLSX): options, formulas in cells, used ranges and A1 column names.

use vstd::prelude::*;
use crate::chunking::utf8_len;
use crate::config::{PipelineConfig, bool_opt, config_bool, config_u64, u64_opt};
use crate::text::{
    chars_of, decimal, decimal_string, join, join_strings, push_chars, push_str_chars, string_from_chars,
    to_owned_string, trim, trim_chars, views,
};
use crate::classifier::FileClassification;
use crate::extractors::rtf::is_stage;
use crate::extractors::{
    base_document_model, default_confidence, diagnostic, document_notice, model_identity,
    registered_assets, register_assets, stage, stats_fit_spec, stats_for, update_stats,
};
use crate::model::{
    Asset, BBox, ContentMode, Diagnostic, DocumentFormat, DocumentModel, Element, ElementType, Page,
    PageProfile, PageType, ProcessingStatus, Provenance,
};

verus! {

/// The extractor of XLSX workbooks.
pub struct XlsxExtractor;

impl XlsxExtractor {
    pub fn name(&self) -> (s: &'static str)
        ensures
            s@ == "xlsx_extractor"@,
    {
        "xlsx_extractor"
    }
}

#[derive(Debug)]
pub struct XlsxOptions {
    pub enabled: bool,
    pub extract_sheets: bool,
    pub extract_cells: bool,
    pub extract_formulas: bool,
    pub extract_comments: bool,
    pub extract_images: bool,
    pub detect_tables: bool,
    pub used_range_only: bool,
    pub max_rows_per_table_element: usize,
    pub max_rows_per_linearized_chunk: usize,
}

impl Default for XlsxOptions {
    fn default() -> (o: Self)
        ensures
            o.enabled && o.extract_sheets && o.extract_cells && o.extract_formulas
                && o.extract_comments && o.extract_images && o.detect_tables && o.used_range_only,
            o.max_rows_per_table_element == 200,
            o.max_rows_per_linearized_chunk == 20,
    {
        XlsxOptions {
            enabled: true,
            extract_sheets: true,
            extract_cells: true,
            extract_formulas: true,
            extract_comments: true,
            extract_images: true,
            detect_tables: true,
            used_range_only: true,
            max_rows_per_table_element: 200,
            max_rows_per_linearized_chunk: 20,
        }
    }
}

/// The path `office.xlsx.<key>`.
pub open spec fn xlsx_key(key: Seq<char>) -> Seq<Seq<char>> {
    seq!["office"@, "xlsx"@, key]
}

fn xlsx_flag(config: Option<&PipelineConfig>, key: &'static str) -> (r: bool)
    ensures
        r == config_bool(config, xlsx_key(key@), true),
{
    let path = ["office", "xlsx", key];
    proof {
        assert(path@.map_values(|s: &str| s@) =~= xlsx_key(key@));
    }
    bool_opt(config, &path, true)
}

fn xlsx_number(config: Option<&PipelineConfig>, key: &'static str, default: u64) -> (r: u64)
    ensures
        r == config_u64(config, xlsx_key(key@), default),
{
    let path = ["office", "xlsx", key];
    proof {
        assert(path@.map_values(|s: &str| s@) =~= xlsx_key(key@));
    }
    u64_opt(config, &path, default)
}

/// The XLSX options that the pipeline configuration sets, the defaults for what
/// it leaves out.
pub fn read_xlsx_options(config: Option<&PipelineConfig>) -> (o: XlsxOptions)
    ensures
        o.enabled == config_bool(config, seq!["office"@, "enabled"@], true),
        o.extract_sheets == config_bool(config, xlsx_key("extract_sheets"@), true),
        o.extract_cells == config_bool(config, xlsx_key("extract_cells"@), true),
        o.extract_formulas == config_bool(config, xlsx_key("extract_formulas"@), true),
        o.extract_comments == config_bool(config, xlsx_key("extract_comments"@), true),
        o.extract_images == config_bool(config, xlsx_key("extract_images"@), true),
        o.detect_tables == config_bool(config, xlsx_key("detect_tables"@), true),
        o.used_range_only == config_bool(config, xlsx_key("used_range_only"@), true),
        o.max_rows_per_table_element == config_u64(config, xlsx_key("max_rows_per_table_element"@), 200) as usize,
        o.max_rows_per_linearized_chunk == config_u64(
            config,
            xlsx_key("max_rows_per_linearized_chunk"@),
            20,
        ) as usize,
{
    let office_enabled = ["office", "enabled"];
    proof {
        assert(office_enabled@.map_values(|s: &str| s@) =~= seq!["office"@, "enabled"@]);
    }
    XlsxOptions {
        enabled: bool_opt(config, &office_enabled, true),
        extract_sheets: xlsx_flag(config, "extract_sheets"),
        extract_cells: xlsx_flag(config, "extract_cells"),
        extract_formulas: xlsx_flag(config, "extract_formulas"),
        extract_comments: xlsx_flag(config, "extract_comments"),
        extract_images: xlsx_flag(config, "extract_images"),
        detect_tables: xlsx_flag(config, "detect_tables"),
        used_range_only: xlsx_flag(config, "used_range_only"),
        max_rows_per_table_element: xlsx_number(config, "max_rows_per_table_element", 200) as usize,
        max_rows_per_linearized_chunk: xlsx_number(config, "max_rows_per_linearized_chunk", 20) as usize,
    }
}

/// A cell value that is a formula: trimmed, it starts with `=` and has more after it.
pub open spec fn formula_of(value: Seq<char>, enabled: bool) -> Option<Seq<char>> {
    let t = trim(value);
    if enabled && t.len() > 0 && t[0] == '=' && utf8_len(t) > 1 {
        Some(t)
    } else {
        None
    }
}

pub fn detect_formula(value: &str, enabled: bool) -> (r: Option<String>)
    ensures
        match formula_of(value@, enabled) {
            Some(f) => r.is_some() && r.unwrap()@ == f,
            None => r.is_none(),
        },
{
    if !enabled {
        return None;
    }
    let t = trim_chars(chars_of(value).as_slice());
    let ts = string_from_chars(t.as_slice());
    if t.len() > 0 && t[0] == '=' && ts.as_str().len() > 1 {
        return Some(ts);
    }
    None
}

/// Every value of the row is blank.
pub open spec fn blank_row(row: Seq<String>) -> bool {
    forall|i: int| 0 <= i < row.len() ==> trim((#[trigger] row[i])@).len() == 0
}

/// The rows without the blank rows at their end.
pub open spec fn without_trailing_blank_rows(rows: Seq<Vec<String>>) -> Seq<Vec<String>>
    decreases rows.len(),
{
    if rows.len() > 0 && blank_row(rows.last()@) {
        without_trailing_blank_rows(rows.drop_last())
    } else {
        rows
    }
}

fn is_blank_row(row: &Vec<String>) -> (r: bool)
    ensures
        r == blank_row(row@),
{
    let mut i: usize = 0;
    while i < row.len()
        invariant
            i <= row@.len(),
            forall|k: int| 0 <= k < i ==> trim((#[trigger] row@[k])@).len() == 0,
        decreases row@.len() - i,
    {
        if !crate::text::str_is_blank(row[i].as_str()) {
            return false;
        }
        i = i + 1;
    }
    true
}

pub fn trim_empty_sheet_rows(rows: Vec<Vec<String>>) -> (r: Vec<Vec<String>>)
    ensures
        r@ == without_trailing_blank_rows(rows@),
{
    let ghost orig = rows@;
    let mut rows = rows;
    while rows.len() > 0 && is_blank_row(&rows[rows.len() - 1])
        invariant
            without_trailing_blank_rows(rows@) == without_trailing_blank_rows(orig),
        decreases rows@.len(),
    {
        let ghost before = rows@;
        let _ = rows.pop();
        assert(rows@ =~= before.drop_last());
    }
    rows
}

/// The A1 name of the column at `idx` (from 0): `A`..`Z`, then `AA`, `AB`, ...
pub open spec fn column_name(idx: nat) -> Seq<char>
    decreases idx,
{
    let letter = ((65 + idx % 26) as u32) as char;
    if idx < 26 {
        seq![letter]
    } else {
        column_name((idx / 26 - 1) as nat).push(letter)
    }
}

/// The column index an A1 name stands for.
pub open spec fn column_index(name: Seq<char>) -> int
    decreases name.len(),
{
    if name.len() == 0 {
        -1
    } else {
        (column_index(name.drop_last()) + 1) * 26 + ((name.last() as u32) - 65)
    }
}

pub fn column_to_a1(idx: usize) -> (r: String)
    ensures
        r@ == column_name(idx as nat),
{
    let letters = column_letters(idx);
    string_from_chars(letters.as_slice())
}

fn column_letters(idx: usize) -> (r: Vec<char>)
    ensures
        r@ == column_name(idx as nat),
    decreases idx,
{
    let rem = (idx % 26) as u8;
    let letter = (65u8 + rem) as char;
    assert(letter == ((65 + idx % 26) as u32) as char);
    if idx < 26 {
        let mut v: Vec<char> = Vec::new();
        v.push(letter);
        assert(v@ =~= seq![letter]);
        v
    } else {
        let mut v = column_letters(idx / 26 - 1);
        v.push(letter);
        v
    }
}

/// Reading back a column's A1 name gives the column: the naming is one to one.
pub proof fn law_column_name_round_trip(idx: nat)
    ensures
        column_index(column_name(idx)) == idx,
    decreases idx,
{
    let letter = ((65 + idx % 26) as u32) as char;
    assert((letter as u32) - 65 == idx % 26);
    assert(idx == 26 * (idx / 26) + idx % 26);
    if idx < 26 {
        assert(column_name(idx) == seq![letter]);
        assert(column_name(idx).drop_last() =~= Seq::<char>::empty());
        assert(column_name(idx).last() == letter);
        assert(column_index(Seq::<char>::empty()) == -1);
    } else {
        let prefix = column_name((idx / 26 - 1) as nat);
        law_column_name_round_trip((idx / 26 - 1) as nat);
        assert(column_name(idx) == prefix.push(letter));
        assert(column_name(idx).drop_last() =~= prefix);
        assert(column_name(idx).last() == letter);
        assert(column_index(prefix) == idx / 26 - 1);
    }
}

/// The used range of rows as an A1 reference: `A1:<last column><row count>`,
/// `A1:A1` for no rows.
pub open spec fn used_range(rows: Seq<Vec<String>>) -> Seq<char> {
    if rows.len() == 0 {
        "A1:A1"@
    } else {
        let w = widest(rows);
        let cols = if w > 1 { w } else { 1 };
        "A1:"@ + column_name((cols - 1) as nat) + decimal(rows.len())
    }
}

/// The length of the longest row.
pub open spec fn widest(rows: Seq<Vec<String>>) -> nat
    decreases rows.len(),
{
    if rows.len() == 0 {
        0
    } else {
        let w = widest(rows.drop_last());
        if rows.last()@.len() > w {
            rows.last()@.len()
        } else {
            w
        }
    }
}

pub fn used_range_to_a1(rows: &Vec<Vec<String>>) -> (r: String)
    ensures
        r@ == used_range(rows@),
{
    if rows.len() == 0 {
        return to_owned_string("A1:A1");
    }
    let mut w: usize = 0;
    let mut i: usize = 0;
    while i < rows.len()
        invariant
            i <= rows@.len(),
            w as nat == widest(rows@.take(i as int)),
        decreases rows@.len() - i,
    {
        proof {
            assert(rows@.take(i + 1).drop_last() =~= rows@.take(i as int));
        }
        if rows[i].len() > w {
            w = rows[i].len();
        }
        i = i + 1;
    }
    assert(rows@.take(i as int) =~= rows@);
    let cols = if w > 1 {
        w
    } else {
        1
    };
    let mut v: Vec<char> = Vec::new();
    push_str_chars(&mut v, "A1:");
    let name = column_letters(cols - 1);
    push_chars(&mut v, name.as_slice());
    push_str_chars(&mut v, decimal_string(rows.len() as u64).as_str());
    string_from_chars(v.as_slice())
}

/// The row segments of a table range from row `start` to row `end` (both
/// included): runs of at most `max_rows` rows, in order, each ending where the
/// next starts.
pub open spec fn row_segments(start: nat, end: nat, max_rows: nat) -> Seq<(nat, nat)>
    decreases end + 1 - start,
{
    if start > end || max_rows == 0 {
        Seq::empty()
    } else {
        let e: nat = if start + max_rows - 1 < end { (start + max_rows - 1) as nat } else { end };
        if e == end {
            seq![(start, e)]
        } else {
            seq![(start, e)] + row_segments(e + 1, end, max_rows)
        }
    }
}

pub open spec fn segments_view(v: Seq<(usize, usize)>) -> Seq<(nat, nat)> {
    v.map_values(|p: (usize, usize)| (p.0 as nat, p.1 as nat))
}

/// Splits the rows `start..=end` of a table range into segments of at most
/// `max_rows` rows, each of which becomes a table element of its own.
pub fn table_row_segments(start: usize, end: usize, max_rows: usize) -> (r: Vec<(usize, usize)>)
    requires
        max_rows >= 1,
        end + max_rows - 1 <= usize::MAX,
    ensures
        segments_view(r@) == row_segments(start as nat, end as nat, max_rows as nat),
{
    let mut out: Vec<(usize, usize)> = Vec::new();
    if start > end {
        assert(segments_view(out@) =~= row_segments(start as nat, end as nat, max_rows as nat));
        return out;
    }
    let mut seg_start: usize = start;
    while seg_start <= end
        invariant
            start <= seg_start <= end + 1,
            max_rows >= 1,
            end + max_rows - 1 <= usize::MAX,
            seg_start <= end ==> segments_view(out@) + row_segments(seg_start as nat, end as nat, max_rows as nat)
                == row_segments(start as nat, end as nat, max_rows as nat),
            seg_start > end ==> segments_view(out@) == row_segments(start as nat, end as nat, max_rows as nat),
        decreases end + 1 - seg_start,
    {
        let limit = seg_start + (max_rows - 1);
        let seg_end = if limit < end { limit } else { end };
        let ghost before = out@;
        let ghost rest = row_segments(seg_start as nat, end as nat, max_rows as nat);
        out.push((seg_start, seg_end));
        proof {
            assert(segments_view(out@) =~= segments_view(before).push((seg_start as nat, seg_end as nat)));
        }
        if seg_end == end {
            proof {
                assert(rest =~= seq![(seg_start as nat, seg_end as nat)]);
                assert(segments_view(out@) =~= segments_view(before) + rest);
            }
            return out;
        }
        proof {
            let next = row_segments((seg_end + 1) as nat, end as nat, max_rows as nat);
            assert(rest =~= seq![(seg_start as nat, seg_end as nat)] + next);
            assert(segments_view(out@) + next =~= segments_view(before) + rest);
        }
        seg_start = seg_end + 1;
    }
    out
}

/// Segmenting loses and repeats no row: the segments of a non-empty range start at
/// its first row, end at its last, follow one another without gap or overlap, and
/// hold between one and `max_rows` rows each; an empty range has none.
pub proof fn law_segments_partition_rows(start: nat, end: nat, max_rows: nat)
    requires
        max_rows >= 1,
    ensures
        ({
            let segs = row_segments(start, end, max_rows);
            &&& start > end ==> segs.len() == 0
            &&& start <= end ==> {
                &&& segs.len() > 0
                &&& segs[0].0 == start
                &&& segs.last().1 == end
                &&& forall|i: int| 0 <= i < segs.len() ==> #[trigger] segs[i].0 <= segs[i].1 && segs[i].1 - segs[i].0 < max_rows
                &&& forall|i: int| 0 <= i < segs.len() - 1 ==> #[trigger] segs[i + 1].0 == segs[i].1 + 1
            }
        }),
    decreases end + 1 - start,
{
    if start <= end {
        let e: nat = if start + max_rows - 1 < end { (start + max_rows - 1) as nat } else { end };
        if e != end {
            law_segments_partition_rows(e + 1, end, max_rows);
            let rest = row_segments(e + 1, end, max_rows);
            let segs = row_segments(start, end, max_rows);
            assert(segs =~= seq![(start, e)] + rest);
            assert forall|i: int| 0 <= i < segs.len() implies #[trigger] segs[i].0 <= segs[i].1 && segs[i].1 - segs[i].0 < max_rows by {
                if i > 0 {
                    assert(segs[i] == rest[i - 1]);
                }
            }
            assert forall|i: int| 0 <= i < segs.len() - 1 implies #[trigger] segs[i + 1].0 == segs[i].1 + 1 by {
                if i > 0 {
                    assert(segs[i + 1] == rest[i]);
                    assert(segs[i] == rest[i - 1]);
                    let k = i - 1;
                    assert(0 <= k < rest.len() - 1);
                    assert(rest[k + 1].0 == rest[k].1 + 1);
                } else {
                    assert(segs[1] == rest[0]);
                    assert(rest[0].0 == e + 1);
                }
            }
        }
    }
}

/// A rectangle of cells of a sheet: rows and columns from 0, both ends included.
#[derive(Clone, Copy, Debug, PartialEq, Eq, Structural)]
pub struct TableRange {
    pub start_row: usize,
    pub end_row: usize,
    pub start_col: usize,
    pub end_col: usize,
}

/// The table ranges of a sheet: those the table detector found where tables are
/// detected, else the whole used range (as many columns as the widest row, at
/// least one), or none for a sheet without rows.
pub open spec fn sheet_ranges(rows: Seq<Vec<String>>, detected: Seq<TableRange>, detect_tables: bool) -> Seq<TableRange> {
    if detect_tables {
        detected
    } else if rows.len() > 0 {
        let w = widest(rows);
        seq![TableRange {
            start_row: 0,
            end_row: (rows.len() - 1) as usize,
            start_col: 0,
            end_col: (if w > 1 { w - 1 } else { 0 }) as usize,
        }]
    } else {
        Seq::empty()
    }
}

/// A part of a table range that becomes one table element: the range's index and
/// the rows and columns it covers.
#[derive(Clone, Copy, Debug, PartialEq, Eq, Structural)]
pub struct SheetSegment {
    pub range: usize,
    pub start_row: usize,
    pub end_row: usize,
    pub start_col: usize,
    pub end_col: usize,
}

/// The segments of the ranges, range by range, each cut into runs of at most
/// `max_rows` rows.
pub open spec fn range_segments(ranges: Seq<TableRange>, max_rows: nat) -> Seq<SheetSegment>
    decreases ranges.len(),
{
    if ranges.len() == 0 {
        Seq::empty()
    } else {
        let i = (ranges.len() - 1) as int;
        let r = ranges[i];
        range_segments(ranges.drop_last(), max_rows) + row_segments(r.start_row as nat, r.end_row as nat, max_rows).map_values(
            |p: (nat, nat)| SheetSegment {
                range: i as usize,
                start_row: p.0 as usize,
                end_row: p.1 as usize,
                start_col: r.start_col,
                end_col: r.end_col,
            },
        )
    }
}

/// The rows a table element holds at most (at least one).
pub open spec fn segment_limit(o: XlsxOptions) -> nat {
    if o.max_rows_per_table_element >= 1 {
        o.max_rows_per_table_element as nat
    } else {
        1
    }
}

/// The segments of a sheet.
pub open spec fn sheet_segments_of(rows: Seq<Vec<String>>, detected: Seq<TableRange>, o: XlsxOptions) -> Seq<SheetSegment> {
    range_segments(sheet_ranges(rows, detected, o.detect_tables), segment_limit(o))
}

/// Segmenting a range stays within machine integers.
pub open spec fn ranges_fit(ranges: Seq<TableRange>, o: XlsxOptions) -> bool {
    forall|i: int| 0 <= i < ranges.len() ==> (#[trigger] ranges[i]).end_row + segment_limit(o) - 1 <= usize::MAX
}

fn widest_exec(rows: &Vec<Vec<String>>) -> (w: usize)
    ensures
        w as nat == widest(rows@),
{
    let mut w: usize = 0;
    let mut i: usize = 0;
    while i < rows.len()
        invariant
            i <= rows@.len(),
            w as nat == widest(rows@.take(i as int)),
        decreases rows@.len() - i,
    {
        proof {
            assert(rows@.take(i + 1).drop_last() =~= rows@.take(i as int));
        }
        if rows[i].len() > w {
            w = rows[i].len();
        }
        i = i + 1;
    }
    assert(rows@.take(i as int) =~= rows@);
    w
}

/// The table ranges of a sheet (see [`sheet_ranges`]).
pub fn xlsx_table_ranges(rows: &Vec<Vec<String>>, detected: &Vec<TableRange>, detect_tables: bool) -> (r: Vec<TableRange>)
    ensures
        r@ == sheet_ranges(rows@, detected@, detect_tables),
{
    if detect_tables {
        return detected.clone();
    }
    let mut out: Vec<TableRange> = Vec::new();
    if rows.len() > 0 {
        let w = widest_exec(rows);
        let end_col = if w > 1 { w - 1 } else { 0 };
        out.push(TableRange { start_row: 0, end_row: rows.len() - 1, start_col: 0, end_col });
        assert(out@ =~= sheet_ranges(rows@, detected@, detect_tables));
    } else {
        assert(out@ =~= sheet_ranges(rows@, detected@, detect_tables));
    }
    out
}

/// The segments of a sheet: its table ranges (see [`xlsx_table_ranges`]) cut into
/// runs of at most `max_rows_per_table_element` rows (at least one).
pub fn xlsx_sheet_segments(rows: &Vec<Vec<String>>, detected: &Vec<TableRange>, options: &XlsxOptions) -> (r: Vec<SheetSegment>)
    requires
        ranges_fit(sheet_ranges(rows@, detected@, options.detect_tables), *options),
    ensures
        r@ == sheet_segments_of(rows@, detected@, *options),
{
    let ranges = xlsx_table_ranges(rows, detected, options.detect_tables);
    let max_rows: usize = if options.max_rows_per_table_element >= 1 { options.max_rows_per_table_element } else { 1 };
    let ghost rs = ranges@;
    let mut out: Vec<SheetSegment> = Vec::new();
    let mut i: usize = 0;
    assert(rs.take(0) =~= Seq::<TableRange>::empty());
    while i < ranges.len()
        invariant
            i <= rs.len(),
            rs == ranges@,
            max_rows as nat == segment_limit(*options),
            ranges_fit(rs, *options),
            out@ == range_segments(rs.take(i as int), max_rows as nat),
        decreases rs.len() - i,
    {
        let r = ranges[i];
        assert(rs[i as int].end_row + segment_limit(*options) - 1 <= usize::MAX);
        let segs = table_row_segments(r.start_row, r.end_row, max_rows);
        let ghost before = out@;
        let ghost mapped = row_segments(r.start_row as nat, r.end_row as nat, max_rows as nat).map_values(
            |p: (nat, nat)| SheetSegment {
                range: i as usize,
                start_row: p.0 as usize,
                end_row: p.1 as usize,
                start_col: r.start_col,
                end_col: r.end_col,
            },
        );
        let mut j: usize = 0;
        while j < segs.len()
            invariant
                j <= segs@.len(),
                segments_view(segs@) == row_segments(r.start_row as nat, r.end_row as nat, max_rows as nat),
                mapped.len() == segs@.len(),
                out@ == before + mapped.take(j as int),
                forall|q: int| 0 <= q < mapped.len() ==> #[trigger] mapped[q] == (SheetSegment {
                    range: i,
                    start_row: segs@[q].0,
                    end_row: segs@[q].1,
                    start_col: r.start_col,
                    end_col: r.end_col,
                }),
            decreases segs@.len() - j,
        {
            let (a, b) = segs[j];
            out.push(SheetSegment { range: i, start_row: a, end_row: b, start_col: r.start_col, end_col: r.end_col });
            proof {
                assert(mapped.take(j + 1) =~= mapped.take(j as int).push(mapped[j as int]));
            }
            j = j + 1;
        }
        proof {
            assert(mapped.take(j as int) =~= mapped);
            assert(rs.take(i + 1).drop_last() =~= rs.take(i as int));
            assert(rs.take(i + 1).last() == rs[i as int]);
        }
        i = i + 1;
    }
    assert(rs.take(i as int) =~= rs);
    out
}

/// The value of a cell, empty outside the rows.
pub open spec fn cell_value(rows: Seq<Vec<String>>, r: int, c: int) -> Seq<char> {
    if 0 <= r < rows.len() && 0 <= c < rows[r]@.len() {
        rows[r]@[c]@
    } else {
        Seq::empty()
    }
}

/// The values of the cells `c0..=c1` of row `r`.
pub open spec fn row_cells(rows: Seq<Vec<String>>, r: int, c0: int, c1: int) -> Seq<Seq<char>>
    decreases c1 + 1 - c0,
{
    if c1 < c0 {
        Seq::empty()
    } else {
        row_cells(rows, r, c0, c1 - 1).push(cell_value(rows, r, c1))
    }
}

/// The values of the cells of rows `r0..=r1` and columns `c0..=c1`, row by row.
pub open spec fn grid_cells(rows: Seq<Vec<String>>, r0: int, r1: int, c0: int, c1: int) -> Seq<Seq<char>>
    decreases r1 + 1 - r0,
{
    if r1 < r0 {
        Seq::empty()
    } else {
        grid_cells(rows, r0, r1 - 1, c0, c1) + row_cells(rows, r1, c0, c1)
    }
}

/// One more, short of the largest 64-bit number.
pub open spec fn sat_inc(x: nat) -> nat {
    if x < u64::MAX {
        x + 1
    } else {
        x
    }
}

/// How many of the values are formulas (counted in 64 bits).
pub open spec fn count_formulas(cells: Seq<Seq<char>>, enabled: bool) -> nat
    decreases cells.len(),
{
    if cells.len() == 0 {
        0
    } else {
        let c = count_formulas(cells.drop_last(), enabled);
        if formula_of(cells.last(), enabled).is_some() {
            sat_inc(c)
        } else {
            c
        }
    }
}

/// The formula cells of a segment.
pub open spec fn segment_formulas(rows: Seq<Vec<String>>, s: SheetSegment, enabled: bool) -> nat {
    count_formulas(grid_cells(rows, s.start_row as int, s.end_row as int, s.start_col as int, s.end_col as int), enabled)
}

pub open spec fn seg_rows(s: SheetSegment) -> nat {
    if s.end_row >= s.start_row {
        (s.end_row - s.start_row + 1) as nat
    } else {
        1
    }
}

pub open spec fn seg_cols(s: SheetSegment) -> nat {
    if s.end_col >= s.start_col {
        (s.end_col - s.start_col + 1) as nat
    } else {
        1
    }
}

/// The height of a segment's box: 18 a row, at least 20.
pub open spec fn seg_height(s: SheetSegment) -> int {
    if seg_rows(s) * 18 > 20 {
        (seg_rows(s) * 18) as int
    } else {
        20
    }
}

/// How far a segment moves the offset down: 18 a row (at least 24), and 12 more.
pub open spec fn seg_advance(s: SheetSegment) -> int {
    (if seg_rows(s) * 18 > 24 {
        (seg_rows(s) * 18) as int
    } else {
        24int
    }) + 12
}

/// The offset after the segments.
pub open spec fn segs_y(segs: Seq<SheetSegment>) -> int
    decreases segs.len(),
{
    if segs.len() == 0 {
        0
    } else {
        segs_y(segs.drop_last()) + seg_advance(segs.last())
    }
}

/// What the table reader made of a segment's grid: the normalized text of each
/// cell, row by row, the normalized text of the whole, and its markdown, HTML and
/// CSV renderings.
pub struct SegmentRendering {
    pub cell_texts: Vec<String>,
    pub normalized_text: String,
    pub markdown: String,
    pub html: String,
    pub csv: String,
}

/// An image of the workbook's media, the `index`-th (from 0) of its media entries,
/// read from the package entry `entry` and stored as `asset`.
pub struct SheetImage {
    pub index: usize,
    pub entry: String,
    pub asset: Asset,
}

/// The text of a segment: its cells' texts joined by ` | `.
pub open spec fn segment_text(rd: SegmentRendering) -> Seq<char> {
    join(views(rd.cell_texts@), " | "@)
}

pub open spec fn segment_id(sheet: nat, s: SheetSegment) -> Seq<char> {
    "sheet"@ + decimal(sheet) + "_table"@ + decimal((s.range + 1) as nat) + "_"@ + decimal((s.start_row + 1) as nat)
}

/// `e` is the segment `s` of sheet `sheet` as rendered `rd`, with the sheet range
/// reference `raw`, numbered `local` on the sheet and `global` in the workbook, at
/// offset `y`, holding `formulas` formula cells.
pub open spec fn segment_element(
    e: Element,
    sheet: nat,
    s: SheetSegment,
    rd: SegmentRendering,
    raw: Seq<char>,
    local: nat,
    global: nat,
    y: int,
    formulas: nat,
) -> bool {
    &&& e.element_id@ == segment_id(sheet, s)
    &&& e.element_type == ElementType::Table
    &&& e.tag matches Some(t) && t@ == "sheet_range"@
    &&& e.role matches Some(t) && t@ == "spreadsheet_range"@
    &&& e.reading_order == Some(local as u32)
    &&& e.global_order == Some(global as u32)
    &&& e.bbox == Some(BBox { x0: 0, y0: y as i64, x1: 1000, y1: (y + seg_height(s)) as i64 })
    &&& e.text matches Some(t) && t@ == segment_text(rd)
    &&& e.markdown matches Some(t) && t@ == rd.markdown@
    &&& e.html matches Some(t) && t@ == rd.html@
    &&& e.normalized_text matches Some(t) && t@ == rd.normalized_text@
    &&& e.raw matches Some(t) && t@ == raw
    &&& e.items@.len() == 0
    &&& !e.exclude_from_chunks
    &&& e.table_linearized@.len() == 0
    &&& e.provenance.method@ == "native"@
    &&& e.provenance.tool@ == "xlsx_ooxml_parser"@
    &&& e.provenance.stage@ == "xlsx_extract_tables"@
    &&& e.provenance.source_kind matches Some(t) && t@ == "sheet_range"@
    &&& e.provenance.source_value matches Some(t) && t@ == raw
    &&& e.confidence_permille == 990
    &&& e.warnings@.len() == 0
    &&& e.extra@.len() == (if formulas > 0 { 4int } else { 3int })
    &&& e.extra@[0].0@ == "rows"@ && e.extra@[0].1@ == decimal(seg_rows(s))
    &&& e.extra@[1].0@ == "columns"@ && e.extra@[1].1@ == decimal(seg_cols(s))
    &&& e.extra@[2].0@ == "csv"@ && e.extra@[2].1@ == rd.csv@
    &&& formulas > 0 ==> e.extra@[3].0@ == "formula_cells"@ && e.extra@[3].1@ == decimal(formulas)
}

/// `e` is the image `img` shown on sheet `sheet`, numbered `local` and `global`.
pub open spec fn sheet_image_element(e: Element, sheet: nat, img: SheetImage, local: nat, global: nat) -> bool {
    &&& e.element_id@ == "sheet"@ + decimal(sheet) + "_image_"@ + decimal((img.index + 1) as nat)
    &&& e.element_type == ElementType::Image
    &&& e.tag matches Some(t) && t@ == "xdr:pic"@
    &&& e.role matches Some(t) && t@ == "embedded_image"@
    &&& e.reading_order == Some(local as u32)
    &&& e.global_order == Some(global as u32)
    &&& e.bbox == Some(BBox { x0: 0, y0: 0, x1: 200, y1: 120 })
    &&& e.text matches Some(t) && t@.len() == 0
    &&& e.markdown matches Some(t) && t@ == "![XLSX image]"@
    &&& e.html.is_none()
    &&& e.normalized_text matches Some(t) && t@.len() == 0
    &&& e.raw matches Some(t) && t@ == img.entry@
    &&& e.items@.len() == 0
    &&& !e.exclude_from_chunks
    &&& e.table_linearized@.len() == 0
    &&& e.provenance.method@ == "native"@
    &&& e.provenance.tool@ == "xlsx_ooxml_parser"@
    &&& e.provenance.stage@ == "xlsx_extract_media"@
    &&& e.provenance.source_kind matches Some(t) && t@ == "zip_entry"@
    &&& e.provenance.source_value matches Some(t) && t@ == img.entry@
    &&& e.confidence_permille == 990
    &&& e.warnings@.len() == 1
    &&& e.warnings@[0].code@ == "XLSX_IMAGE_POSITION_APPROXIMATE"@
    &&& e.warnings@[0].severity@ == "warning"@
    &&& e.warnings@[0].scope@ == "element"@
    &&& e.warnings@[0].page_number == Some(sheet as u32)
    &&& e.warnings@[0].element_id.is_none()
    &&& e.warnings@[0].message@ == "Позиция изображения XLSX задана приближенно (synthetic bbox)."@
    &&& e.warnings@[0].recoverable
    &&& e.warnings@[0].extra@.len() == 0
    &&& e.extra@.len() == 2
    &&& e.extra@[0].0@ == "asset_id"@ && e.extra@[0].1@ == img.asset.asset_id@
    &&& e.extra@[1].0@ == "language"@ && e.extra@[1].1@ == "ru"@
}

fn cell_str(rows: &Vec<Vec<String>>, r: usize, c: usize) -> (v: &str)
    ensures
        v@ == cell_value(rows@, r as int, c as int),
{
    if r < rows.len() && c < rows[r].len() {
        rows[r][c].as_str()
    } else {
        proof {
            reveal_strlit("");
        }
        ""
    }
}

/// The formula cells of a segment (see [`segment_formulas`]).
fn segment_formula_count(rows: &Vec<Vec<String>>, s: SheetSegment, enabled: bool) -> (n: u64)
    requires
        s.end_row < usize::MAX,
        s.end_col < usize::MAX,
    ensures
        n as nat == segment_formulas(rows@, s, enabled),
{
    let ghost r0 = s.start_row as int;
    let ghost c0 = s.start_col as int;
    let ghost c1 = s.end_col as int;
    let mut n: u64 = 0;
    let mut r: usize = s.start_row;
    if s.end_row < s.start_row {
        assert(grid_cells(rows@, r0, s.end_row as int, c0, c1) =~= Seq::<Seq<char>>::empty());
        return 0;
    }
    assert(grid_cells(rows@, r0, r0 - 1, c0, c1) =~= Seq::<Seq<char>>::empty());
    while r <= s.end_row
        invariant
            s.start_row <= r <= s.end_row + 1,
            s.end_row < usize::MAX,
            s.end_col < usize::MAX,
            r0 == s.start_row,
            c0 == s.start_col,
            c1 == s.end_col,
            n as nat == count_formulas(grid_cells(rows@, r0, r - 1, c0, c1), enabled),
        decreases s.end_row + 1 - r,
    {
        let ghost base = grid_cells(rows@, r0, r - 1, c0, c1);
        let mut c: usize = s.start_col;
        if s.end_col >= s.start_col {
            assert(row_cells(rows@, r as int, c0, c0 - 1) =~= Seq::<Seq<char>>::empty());
            assert(base + row_cells(rows@, r as int, c0, c0 - 1) =~= base);
            while c <= s.end_col
                invariant
                    s.start_col <= c <= s.end_col + 1,
                    s.end_col < usize::MAX,
                    c0 == s.start_col,
                    c1 == s.end_col,
                    n as nat == count_formulas(base + row_cells(rows@, r as int, c0, c - 1), enabled),
                decreases s.end_col + 1 - c,
            {
                let v = cell_str(rows, r, c);
                let f = detect_formula(v, enabled);
                let ghost prev = base + row_cells(rows@, r as int, c0, c - 1);
                if f.is_some() && n < u64::MAX {
                    n = n + 1;
                }
                proof {
                    assert(base + row_cells(rows@, r as int, c0, c as int) =~= prev.push(cell_value(rows@, r as int, c as int)));
                    assert(prev.push(cell_value(rows@, r as int, c as int)).drop_last() =~= prev);
                }
                c = c + 1;
            }
        } else {
            assert(row_cells(rows@, r as int, c0, c1) =~= Seq::<Seq<char>>::empty());
            assert(base + row_cells(rows@, r as int, c0, c1) =~= base);
        }
        proof {
            assert(grid_cells(rows@, r0, r as int, c0, c1) == base + row_cells(rows@, r as int, c0, c1));
        }
        r = r + 1;
    }
    n
}

fn sheet_number_text(prefix: &str, a: u64, mid: &str, b: u64, tail: &str, c: u64) -> (r: String)
    ensures
        r@ == prefix@ + decimal(a as nat) + mid@ + decimal(b as nat) + tail@ + decimal(c as nat),
{
    let mut v: Vec<char> = Vec::new();
    push_str_chars(&mut v, prefix);
    push_str_chars(&mut v, decimal_string(a).as_str());
    push_str_chars(&mut v, mid);
    push_str_chars(&mut v, decimal_string(b).as_str());
    push_str_chars(&mut v, tail);
    push_str_chars(&mut v, decimal_string(c).as_str());
    string_from_chars(v.as_slice())
}

fn segment_element_exec(
    sheet: u32,
    s: SheetSegment,
    rd: &SegmentRendering,
    raw: &String,
    local: u32,
    global: u32,
    y: i64,
    formulas: u64,
) -> (e: Element)
    requires
        0 <= y,
        y + seg_height(s) <= i64::MAX,
        s.range < usize::MAX,
        s.start_row < usize::MAX,
        s.end_row < usize::MAX,
        s.end_col < usize::MAX,
    ensures
        segment_element(e, sheet as nat, s, *rd, raw@, local as nat, global as nat, y as int, formulas as nat),
{
    let rows_len: usize = if s.end_row >= s.start_row { s.end_row - s.start_row + 1 } else { 1 };
    let cols_len: usize = if s.end_col >= s.start_col { s.end_col - s.start_col + 1 } else { 1 };
    let h128: u128 = (rows_len as u128) * 18;
    let h: i64 = if h128 > 20 { h128 as i64 } else { 20 };
    let range_no: usize = s.range + 1;
    let start_no: usize = s.start_row + 1;
    let id = sheet_number_text("sheet", sheet as u64, "_table", range_no as u64, "_", start_no as u64);
    let mut extra: Vec<(String, String)> = Vec::new();
    extra.push((to_owned_string("rows"), decimal_string(rows_len as u64)));
    extra.push((to_owned_string("columns"), decimal_string(cols_len as u64)));
    extra.push((to_owned_string("csv"), rd.csv.clone()));
    if formulas > 0 {
        extra.push((to_owned_string("formula_cells"), decimal_string(formulas)));
    }
    Element {
        element_id: id,
        element_type: ElementType::Table,
        tag: Some(to_owned_string("sheet_range")),
        role: Some(to_owned_string("spreadsheet_range")),
        reading_order: Some(local),
        global_order: Some(global),
        bbox: Some(BBox { x0: 0, y0: y, x1: 1000, y1: y + h }),
        text: Some(join_strings(&rd.cell_texts, " | ")),
        markdown: Some(rd.markdown.clone()),
        html: Some(rd.html.clone()),
        normalized_text: Some(rd.normalized_text.clone()),
        raw: Some(raw.clone()),
        items: Vec::new(),
        exclude_from_chunks: false,
        table_linearized: Vec::new(),
        provenance: Provenance {
            method: to_owned_string("native"),
            tool: to_owned_string("xlsx_ooxml_parser"),
            stage: to_owned_string("xlsx_extract_tables"),
            source_kind: Some(to_owned_string("sheet_range")),
            source_value: Some(raw.clone()),
        },
        confidence_permille: default_confidence(),
        warnings: Vec::new(),
        extra,
    }
}

fn sheet_image_element_exec(sheet: u32, img: &SheetImage, local: u32, global: u32) -> (e: Element)
    requires
        img.index < usize::MAX,
    ensures
        sheet_image_element(e, sheet as nat, *img, local as nat, global as nat),
{
    let number: usize = img.index + 1;
    let mut id: Vec<char> = Vec::new();
    push_str_chars(&mut id, "sheet");
    push_str_chars(&mut id, decimal_string(sheet as u64).as_str());
    push_str_chars(&mut id, "_image_");
    push_str_chars(&mut id, decimal_string(number as u64).as_str());
    let mut warnings: Vec<Diagnostic> = Vec::new();
    warnings.push(Diagnostic {
        code: to_owned_string("XLSX_IMAGE_POSITION_APPROXIMATE"),
        severity: to_owned_string("warning"),
        scope: to_owned_string("element"),
        page_number: Some(sheet),
        element_id: None,
        message: to_owned_string("Позиция изображения XLSX задана приближенно (synthetic bbox)."),
        recoverable: true,
        extra: Vec::new(),
    });
    let mut extra: Vec<(String, String)> = Vec::new();
    extra.push((to_owned_string("asset_id"), img.asset.asset_id.clone()));
    extra.push((to_owned_string("language"), to_owned_string("ru")));
    Element {
        element_id: string_from_chars(id.as_slice()),
        element_type: ElementType::Image,
        tag: Some(to_owned_string("xdr:pic")),
        role: Some(to_owned_string("embedded_image")),
        reading_order: Some(local),
        global_order: Some(global),
        bbox: Some(BBox { x0: 0, y0: 0, x1: 200, y1: 120 }),
        text: Some(String::new()),
        markdown: Some(to_owned_string("![XLSX image]")),
        html: None,
        normalized_text: Some(String::new()),
        raw: Some(img.entry.clone()),
        items: Vec::new(),
        exclude_from_chunks: false,
        table_linearized: Vec::new(),
        provenance: Provenance {
            method: to_owned_string("native"),
            tool: to_owned_string("xlsx_ooxml_parser"),
            stage: to_owned_string("xlsx_extract_media"),
            source_kind: Some(to_owned_string("zip_entry")),
            source_value: Some(img.entry.clone()),
        },
        confidence_permille: default_confidence(),
        warnings,
        extra,
    }
}

/// A sheet made a page, with the assets its images were stored as (each id once),
/// the workbook-wide number the next table takes, and whether a formula has been
/// met in the workbook so far.
pub struct SheetOutput {
    pub page: Page,
    pub assets: Vec<Asset>,
    pub next_global: u32,
    pub has_formulas: bool,
}

/// The sheet's offsets, numbers and indexes fit their fields.
pub open spec fn sheet_fits(
    rows: Seq<Vec<String>>,
    detected: Seq<TableRange>,
    o: XlsxOptions,
    images: Seq<SheetImage>,
    global: nat,
) -> bool {
    let segs = sheet_segments_of(rows, detected, o);
    &&& ranges_fit(sheet_ranges(rows, detected, o.detect_tables), o)
    &&& forall|k: int|
        0 <= k < segs.len() ==> (#[trigger] segs[k]).end_row < usize::MAX && segs[k].end_col < usize::MAX
            && segs[k].range < usize::MAX && segs[k].start_row < usize::MAX
    &&& segs_y(segs) <= i64::MAX
    &&& global + segs.len() + images.len() + 1 <= u32::MAX
    &&& forall|j: int| 0 <= j < images.len() ==> (#[trigger] images[j]).index < usize::MAX
}

pub open spec fn any_formulas(rows: Seq<Vec<String>>, segs: Seq<SheetSegment>, enabled: bool) -> bool {
    exists|k: int| 0 <= k < segs.len() && segment_formulas(rows, #[trigger] segs[k], enabled) > 0
}

/// `out` is sheet `index` (from 0) named `name` with the rows `rows`, the detected
/// table ranges `detected`, its segments rendered as `renderings` and the images
/// `images`, after `global` tables in the workbook and with formulas met before
/// (`has_formulas`) or not.
pub open spec fn xlsx_sheet(
    out: SheetOutput,
    index: nat,
    name: Seq<char>,
    rows: Seq<Vec<String>>,
    detected: Seq<TableRange>,
    renderings: Seq<SegmentRendering>,
    images: Seq<SheetImage>,
    o: XlsxOptions,
    global: nat,
    has_formulas: bool,
) -> bool {
    let segs = sheet_segments_of(rows, detected, o);
    let n = segs.len();
    let m = images.len();
    let raw = name + "!"@ + used_range(rows);
    let es = out.page.elements@;
    let p = out.page;
    &&& es.len() == n + m
    &&& forall|k: int|
        0 <= k < n ==> segment_element(
            #[trigger] es[k],
            index + 1,
            segs[k],
            renderings[k],
            raw,
            (k + 1) as nat,
            (global + k) as nat,
            segs_y(segs.take(k)),
            segment_formulas(rows, segs[k], o.extract_formulas),
        )
    &&& forall|j: int|
        0 <= j < m ==> sheet_image_element(#[trigger] es[n + j], index + 1, images[j], (n + j + 1) as nat, (global + n + j) as nat)
    &&& out.assets@ == registered_assets(images.map_values(|i: SheetImage| i.asset))
    &&& out.next_global == global + n
    &&& out.has_formulas == (has_formulas || any_formulas(rows, segs, o.extract_formulas))
    &&& p.page_number == (index + 1) as u32
    &&& p.page_type == PageType::Sheet
    &&& p.width.is_none() && p.height.is_none() && p.page_image_asset_id.is_none()
    &&& p.page_profile.content_mode == ContentMode::Sheet
    &&& p.page_profile.has_native_text == (rows.len() > 0)
    &&& !p.page_profile.has_ocr_required_regions
    &&& p.page_profile.has_tables == (n > 0)
    &&& p.page_profile.has_images == (m > 0)
    &&& p.page_profile.has_formulas == out.has_formulas
    &&& !p.page_profile.has_handwriting
    &&& p.page_profile.language matches Some(l) && l@ == "ru"@
    &&& p.page_profile.confidence_permille == 950
    &&& p.text@ == join(renderings.map_values(|r: SegmentRendering| segment_text(r)), "\n"@)
    &&& p.markdown@ == join(seq!["# "@ + name] + renderings.map_values(|r: SegmentRendering| r.markdown@), "\n\n"@)
    &&& p.html@.len() == 0
    &&& p.warnings@.len() == 0
}

proof fn lemma_segs_y(segs: Seq<SheetSegment>, k: int)
    requires
        0 <= k < segs.len(),
    ensures
        segs_y(segs.take(k + 1)) == segs_y(segs.take(k)) + seg_advance(segs[k]),
        0 <= segs_y(segs.take(k)),
        segs_y(segs.take(k)) + seg_height(segs[k]) <= segs_y(segs.take(k + 1)),
        segs_y(segs.take(k + 1)) <= segs_y(segs),
    decreases segs.len() - k,
{
    assert(segs.take(k + 1).drop_last() =~= segs.take(k));
    assert(segs.take(k + 1).last() == segs[k]);
    lemma_segs_y_nonneg(segs.take(k));
    lemma_segs_y_prefix(segs, k + 1);
}

proof fn lemma_segs_y_nonneg(segs: Seq<SheetSegment>)
    ensures
        0 <= segs_y(segs),
    decreases segs.len(),
{
    if segs.len() > 0 {
        lemma_segs_y_nonneg(segs.drop_last());
    }
}

proof fn lemma_segs_y_prefix(segs: Seq<SheetSegment>, i: int)
    requires
        0 <= i <= segs.len(),
    ensures
        segs_y(segs.take(i)) <= segs_y(segs),
    decreases segs.len() - i,
{
    if i < segs.len() {
        lemma_segs_y_prefix(segs.drop_last(), i);
        assert(segs.drop_last().take(i) =~= segs.take(i));
    } else {
        assert(segs.take(i) =~= segs);
    }
}

/// Sheet `index` (from 0) of a workbook as a page: each segment of its table
/// ranges (see [`xlsx_sheet_segments`]) a table element, down a running offset
/// from 0 and numbered on the sheet and on in the workbook, counting its formula
/// cells; then its images with approximate boxes. The page's text joins the
/// segments' texts; its markdown the sheet's name as a heading and their markdown.
#[verifier::spinoff_prover]
#[verifier::rlimit(80)]
pub fn build_xlsx_sheet(
    index: usize,
    name: &String,
    rows: &Vec<Vec<String>>,
    detected: &Vec<TableRange>,
    renderings: &Vec<SegmentRendering>,
    images: Vec<SheetImage>,
    options: &XlsxOptions,
    global: u32,
    has_formulas: bool,
) -> (out: SheetOutput)
    requires
        index + 1 <= u32::MAX,
        sheet_fits(rows@, detected@, *options, images@, global as nat),
        renderings@.len() == sheet_segments_of(rows@, detected@, *options).len(),
    ensures
        xlsx_sheet(out, index as nat, name@, rows@, detected@, renderings@, images@, *options, global as nat, has_formulas),
{
    let sheet: u32 = (index + 1) as u32;
    let ghost sn: nat = (index + 1) as nat;
    let segs = xlsx_sheet_segments(rows, detected, options);
    let ghost sg = segs@;
    let used = used_range_to_a1(rows);
    let mut rv: Vec<char> = Vec::new();
    push_str_chars(&mut rv, name.as_str());
    push_str_chars(&mut rv, "!");
    push_str_chars(&mut rv, used.as_str());
    let raw = string_from_chars(rv.as_slice());
    let ghost rr = rows@;
    let ghost rd = renderings@;
    let n = segs.len();
    let mut elements: Vec<Element> = Vec::new();
    let mut texts: Vec<String> = Vec::new();
    let mut mds: Vec<String> = Vec::new();
    mds.push(prefixed_heading(name));
    let mut y: i64 = 0;
    let mut any_f = false;
    let mut k: usize = 0;
    while k < n
        invariant
            k <= n,
            n == sg.len(),
            sg == segs@,
            sg == sheet_segments_of(rr, detected@, *options),
            rr == rows@,
            rd == renderings@,
            rd.len() == n,
            raw@ == name@ + "!"@ + used_range(rr),
            sheet as nat == sn,
            sheet_fits(rr, detected@, *options, images@, global as nat),
            elements@.len() == k,
            forall|q: int|
                0 <= q < k ==> segment_element(
                    #[trigger] elements@[q],
                    sn,
                    sg[q],
                    rd[q],
                    raw@,
                    (q + 1) as nat,
                    (global + q) as nat,
                    segs_y(sg.take(q)),
                    segment_formulas(rr, sg[q], options.extract_formulas),
                ),
            y as int == segs_y(sg.take(k as int)),
            views(texts@) == rd.take(k as int).map_values(|r: SegmentRendering| segment_text(r)),
            views(mds@) == seq!["# "@ + name@] + rd.take(k as int).map_values(|r: SegmentRendering| r.markdown@),
            any_f == exists|q: int| 0 <= q < k && segment_formulas(rr, #[trigger] sg[q], options.extract_formulas) > 0,
        decreases n - k,
    {
        proof {
            lemma_segs_y(sg, k as int);
        }
        let s = segs[k];
        assert(s.end_row < usize::MAX && s.end_col < usize::MAX && s.range < usize::MAX && s.start_row < usize::MAX);
        let f = segment_formula_count(rows, s, options.extract_formulas);
        let ghost e0 = elements@;
        let e = segment_element_exec(sheet, s, &renderings[k], &raw, (k + 1) as u32, global + k as u32, y, f);
        let ghost t0 = views(texts@);
        let ghost m0 = views(mds@);
        texts.push(text_of(&e.text));
        mds.push(renderings[k].markdown.clone());
        elements.push(e);
        if f > 0 {
            any_f = true;
        }
        let h: i64 = (seg_advance_exec(s)) as i64;
        y = y + h;
        proof {
            assert forall|q: int| 0 <= q < k + 1 implies segment_element(
                #[trigger] elements@[q],
                sn,
                sg[q],
                rd[q],
                raw@,
                (q + 1) as nat,
                (global + q) as nat,
                segs_y(sg.take(q)),
                segment_formulas(rr, sg[q], options.extract_formulas),
            ) by {
                if q < k {
                    assert(elements@[q] == e0[q]);
                }
            }
            assert(rd.take(k + 1) =~= rd.take(k as int).push(rd[k as int]));
            assert(views(texts@) =~= t0.push(segment_text(rd[k as int])));
            assert(views(mds@) =~= m0.push(rd[k as int].markdown@));
            if f > 0 {
                assert(segment_formulas(rr, sg[k as int], options.extract_formulas) > 0);
            }
        }
        k = k + 1;
    }
    assert(rd.take(n as int) =~= rd);
    let ghost ims = images@;
    let ghost assets_in = ims.map_values(|i: SheetImage| i.asset);
    let mut stored: Vec<Asset> = Vec::new();
    let mut rest = images;
    let mut j: usize = 0;
    let m = rest.len();
    let mut has_images = false;
    while rest.len() > 0
        invariant
            j + rest@.len() == ims.len(),
            m == ims.len(),
            global + n + m + 1 <= u32::MAX,
            rest@ == ims.skip(j as int),
            n == sg.len(),
            sheet as nat == sn,
            sheet_fits(rr, detected@, *options, ims, global as nat),
            elements@.len() == n + j,
            forall|q: int|
                0 <= q < n ==> segment_element(
                    #[trigger] elements@[q],
                    sn,
                    sg[q],
                    rd[q],
                    raw@,
                    (q + 1) as nat,
                    (global + q) as nat,
                    segs_y(sg.take(q)),
                    segment_formulas(rr, sg[q], options.extract_formulas),
                ),
            forall|q: int| 0 <= q < j ==> sheet_image_element(#[trigger] elements@[n + q], sn, ims[q], (n + q + 1) as nat, (global + n + q) as nat),
            stored@ == assets_in.take(j as int),
            assets_in == ims.map_values(|i: SheetImage| i.asset),
            has_images == (j > 0),
        decreases rest@.len(),
    {
        assert(ims.skip(j as int)[0] == ims[j as int]);
        let img = rest.remove(0);
        let ghost e0 = elements@;
        let e = sheet_image_element_exec(sheet, &img, (n + j + 1) as u32, global + (n + j) as u32);
        elements.push(e);
        stored.push(img.asset);
        has_images = true;
        proof {
            assert forall|q: int| 0 <= q < n implies segment_element(
                #[trigger] elements@[q],
                sn,
                sg[q],
                rd[q],
                raw@,
                (q + 1) as nat,
                (global + q) as nat,
                segs_y(sg.take(q)),
                segment_formulas(rr, sg[q], options.extract_formulas),
            ) by {
                assert(elements@[q] == e0[q]);
            }
            assert forall|q: int| 0 <= q < j + 1 implies sheet_image_element(#[trigger] elements@[n + q], sn, ims[q], (n + q + 1) as nat, (global + n + q) as nat) by {
                if q < j {
                    assert(elements@[n + q] == e0[n + q]);
                }
            }
            assert(assets_in.take(j + 1) =~= assets_in.take(j as int).push(ims[j as int].asset));
        }
        j = j + 1;
        proof {
            assert(ims.skip(j as int) =~= ims.skip(j - 1).drop_first());
        }
    }
    assert(assets_in.take(j as int) =~= assets_in);
    let assets = register_assets(stored);
    let hf = has_formulas || any_f;
    let page = Page {
        page_number: sheet,
        page_type: PageType::Sheet,
        width: None,
        height: None,
        page_image_asset_id: None,
        page_profile: PageProfile {
            content_mode: ContentMode::Sheet,
            has_native_text: rows.len() > 0,
            has_ocr_required_regions: false,
            has_tables: n > 0,
            has_images,
            has_formulas: hf,
            has_handwriting: false,
            language: Some(to_owned_string("ru")),
            confidence_permille: 950,
        },
        elements,
        text: join_strings(&texts, "\n"),
        markdown: join_strings(&mds, "\n\n"),
        html: String::new(),
        warnings: Vec::new(),
    };
    SheetOutput { page, assets, next_global: global + n as u32, has_formulas: hf }
}

fn prefixed_heading(name: &String) -> (r: String)
    ensures
        r@ == "# "@ + name@,
{
    let mut v: Vec<char> = Vec::new();
    push_str_chars(&mut v, "# ");
    push_str_chars(&mut v, name.as_str());
    string_from_chars(v.as_slice())
}

fn text_of(o: &Option<String>) -> (r: String)
    ensures
        o.is_some() ==> r@ == o.unwrap()@,
{
    match o {
        Some(t) => t.clone(),
        None => String::new(),
    }
}

fn seg_advance_exec(s: SheetSegment) -> (a: u128)
    requires
        s.end_row < usize::MAX,
    ensures
        a as int == seg_advance(s),
{
    let rows_len: usize = if s.end_row >= s.start_row { s.end_row - s.start_row + 1 } else { 1 };
    let h: u128 = (rows_len as u128) * 18;
    (if h > 24 { h } else { 24 }) + 12
}

/// A sheet of the workbook as it was read.
pub enum XlsxSheetRead {
    /// The sheet `name` could not be read, for the reason `error`.
    Unreadable { name: String, error: String },
    /// The sheet made a page (see [`build_xlsx_sheet`]).
    Read(SheetOutput),
}

/// The pages of the sheets that were read, in order.
pub open spec fn xlsx_pages(sheets: Seq<XlsxSheetRead>) -> Seq<Page>
    decreases sheets.len(),
{
    if sheets.len() == 0 {
        Seq::empty()
    } else {
        let rest = xlsx_pages(sheets.drop_last());
        match sheets.last() {
            XlsxSheetRead::Read(out) => rest.push(out.page),
            _ => rest,
        }
    }
}

/// The assets of the sheets that were read, in order.
pub open spec fn xlsx_assets(sheets: Seq<XlsxSheetRead>) -> Seq<Asset>
    decreases sheets.len(),
{
    if sheets.len() == 0 {
        Seq::empty()
    } else {
        let rest = xlsx_assets(sheets.drop_last());
        match sheets.last() {
            XlsxSheetRead::Read(out) => rest + out.assets@,
            _ => rest,
        }
    }
}

pub open spec fn comments_skipped_message() -> Seq<char> {
    "Комментарии XLSX пока пропущены: текущий backend не извлекает comments.xml"@
}

/// The document warnings of the sheets as `(code, message)`: a sheet that could
/// not be read, and for each sheet read the skipped comments where comments are
/// extracted.
pub open spec fn xlsx_notices(sheets: Seq<XlsxSheetRead>, comments: bool) -> Seq<(Seq<char>, Seq<char>)>
    decreases sheets.len(),
{
    if sheets.len() == 0 {
        Seq::empty()
    } else {
        let rest = xlsx_notices(sheets.drop_last(), comments);
        match sheets.last() {
            XlsxSheetRead::Unreadable { name, error } => rest.push(
                ("XLSX_SHEET_READ_FAILED"@, "Не удалось прочитать лист '"@ + name@ + "': "@ + error@),
            ),
            XlsxSheetRead::Read(_) => if comments {
                rest.push(("XLSX_COMMENTS_SKIPPED"@, comments_skipped_message()))
            } else {
                rest
            },
        }
    }
}

pub open spec fn any_sheet_tables(sheets: Seq<XlsxSheetRead>) -> bool {
    exists|i: int| 0 <= i < sheets.len() && (#[trigger] sheets[i] matches XlsxSheetRead::Read(out) && out.page.page_profile.has_tables)
}

pub open spec fn any_sheet_images(sheets: Seq<XlsxSheetRead>) -> bool {
    exists|i: int| 0 <= i < sheets.len() && (#[trigger] sheets[i] matches XlsxSheetRead::Read(out) && out.page.page_profile.has_images)
}

pub open spec fn any_sheet_formulas(sheets: Seq<XlsxSheetRead>) -> bool {
    exists|i: int| 0 <= i < sheets.len() && (#[trigger] sheets[i] matches XlsxSheetRead::Read(out) && out.has_formulas)
}

/// The stages of a workbook whose sheets were read.
pub open spec fn xlsx_stages(st: Seq<crate::model::ProcessingStage>) -> bool {
    &&& st.len() == 7
    &&& is_stage(st[0], "xlsx_open_workbook"@, "calamine"@, 1)
    &&& is_stage(st[1], "xlsx_extract_sheets"@, "xlsx_ooxml_parser"@, 1)
    &&& is_stage(st[2], "xlsx_detect_ranges"@, "xlsx_ooxml_parser"@, 1)
    &&& is_stage(st[3], "xlsx_extract_tables"@, "xlsx_ooxml_parser"@, 1)
    &&& is_stage(st[4], "xlsx_extract_formulas"@, "xlsx_ooxml_parser"@, 1)
    &&& is_stage(st[5], "xlsx_extract_media"@, "xlsx_ooxml_parser"@, 1)
    &&& is_stage(st[6], "xlsx_chunking"@, "semantic_chunker"@, 0)
}

/// `m` is the model of the workbook `classification` read with options `o`,
/// whose sheets (in order) were read as `sheets`.
pub open spec fn xlsx_document(
    m: DocumentModel,
    classification: FileClassification,
    o: XlsxOptions,
    sheets: Seq<XlsxSheetRead>,
    processed_at: Option<String>,
) -> bool {
    let read: Seq<XlsxSheetRead> = if o.extract_sheets { sheets } else { Seq::empty() };
    let notices = xlsx_notices(read, o.extract_comments);
    &&& model_identity(m, classification, DocumentFormat::Xlsx, ContentMode::Spreadsheet, processed_at)
    &&& m.coordinate_system.unit@ == "synthetic"@
    &&& m.chunks@.len() == 0
    &&& m.errors@.len() == 0
    &&& if !o.enabled {
        &&& m.pages@.len() == 1
        &&& m.assets@.len() == 0
        &&& m.warnings@.len() == 1
        &&& document_notice(m.warnings@[0], "warning"@, "XLSX_EXTRACTION_DISABLED"@, "XLSX extraction disabled by pipeline.office.enabled=false"@)
        &&& m.processing.status == ProcessingStatus::Complete
        &&& m.processing.stages@.len() == 0
        &&& m.stats == stats_for(Seq::empty())
    } else if sheets.len() == 0 {
        &&& m.pages@.len() == 0
        &&& m.assets@.len() == 0
        &&& m.warnings@.len() == 1
        &&& document_notice(m.warnings@[0], "warning"@, "XLSX_EMPTY_WORKBOOK"@, "Книга XLSX не содержит листов"@)
        &&& m.processing.status == ProcessingStatus::Partial
        &&& m.processing.stages@.len() == 0
        &&& m.stats == stats_for(Seq::empty())
    } else {
        &&& m.pages@ == xlsx_pages(read)
        &&& m.assets@ == xlsx_assets(read)
        &&& m.warnings@.len() == notices.len()
        &&& forall|j: int| 0 <= j < notices.len() ==> document_notice(#[trigger] m.warnings@[j], "warning"@, notices[j].0, notices[j].1)
        &&& m.document_profile.has_tables == any_sheet_tables(read)
        &&& m.document_profile.has_images == any_sheet_images(read)
        &&& m.document_profile.has_formulas == any_sheet_formulas(read)
        &&& m.document_profile.document_type_guess matches Some(g) && g@ == "spreadsheet"@
        &&& m.processing.status == ProcessingStatus::Complete
        &&& xlsx_stages(m.processing.stages@)
        &&& m.stats == stats_for(m.pages@)
        &&& m.processing.total_duration_ms == Some(7u64)
    }
}

proof fn lemma_xlsx_step(sheets: Seq<XlsxSheetRead>, k: int, comments: bool)
    requires
        0 <= k < sheets.len(),
    ensures
        xlsx_pages(sheets.take(k + 1)) == match sheets[k] {
            XlsxSheetRead::Read(out) => xlsx_pages(sheets.take(k)).push(out.page),
            _ => xlsx_pages(sheets.take(k)),
        },
        xlsx_assets(sheets.take(k + 1)) == match sheets[k] {
            XlsxSheetRead::Read(out) => xlsx_assets(sheets.take(k)) + out.assets@,
            _ => xlsx_assets(sheets.take(k)),
        },
        xlsx_notices(sheets.take(k + 1), comments) == match sheets[k] {
            XlsxSheetRead::Unreadable { name, error } => xlsx_notices(sheets.take(k), comments).push(
                ("XLSX_SHEET_READ_FAILED"@, "Не удалось прочитать лист '"@ + name@ + "': "@ + error@),
            ),
            XlsxSheetRead::Read(_) => if comments {
                xlsx_notices(sheets.take(k), comments).push(("XLSX_COMMENTS_SKIPPED"@, comments_skipped_message()))
            } else {
                xlsx_notices(sheets.take(k), comments)
            },
        },
{
    assert(sheets.take(k + 1).drop_last() =~= sheets.take(k));
    assert(sheets.take(k + 1).last() == sheets[k]);
}

/// The model of a workbook from what reading its sheets gave. When extraction is
/// disabled the workbook is not looked at and the model says so in a warning; a
/// workbook without sheets leaves a warning and a partial model. Otherwise, where
/// sheets are extracted, each sheet that was read is a page (its assets added, and
/// a warning that comments are skipped where they are extracted) and each that was
/// not leaves a warning; the profile tells whether tables, images and formulas were
/// met.
#[verifier::spinoff_prover]
#[verifier::rlimit(60)]
pub fn build_xlsx_document(
    classification: &FileClassification,
    options: &XlsxOptions,
    sheets: Vec<XlsxSheetRead>,
    processed_at: Option<String>,
) -> (m: DocumentModel)
    requires
        classification.input_path@.len() < 0x7fff_ffff_ffff_ffff,
        options.extract_sheets ==> stats_fit_spec(xlsx_pages(sheets@)),
    ensures
        xlsx_document(m, *classification, *options, sheets@, processed_at),
{
    let mut m = base_document_model(classification, DocumentFormat::Xlsx, ContentMode::Spreadsheet, PageType::Sheet, processed_at);
    m.coordinate_system.unit = to_owned_string("synthetic");
    if !options.enabled {
        m.warnings.push(diagnostic("XLSX_EXTRACTION_DISABLED", "warning", "document", "XLSX extraction disabled by pipeline.office.enabled=false"));
        return m;
    }
    m.pages = Vec::new();
    if sheets.len() == 0 {
        m.warnings.push(diagnostic("XLSX_EMPTY_WORKBOOK", "warning", "document", "Книга XLSX не содержит листов"));
        m.processing.status = ProcessingStatus::Partial;
        return m;
    }
    let ghost all: Seq<XlsxSheetRead> = if options.extract_sheets { sheets@ } else { Seq::empty() };
    let rest0: Vec<XlsxSheetRead> = if options.extract_sheets { sheets } else { Vec::new() };
    assert(rest0@ == all);
    assert(all.len() == rest0.len());
    let mut rest = rest0;
    let mut pages: Vec<Page> = Vec::new();
    let mut assets: Vec<Asset> = Vec::new();
    let mut warnings: Vec<Diagnostic> = Vec::new();
    let mut ht = false;
    let mut hi = false;
    let mut hf = false;
    let mut k: usize = 0;
    assert(all.take(0) =~= Seq::<XlsxSheetRead>::empty());
    while rest.len() > 0
        invariant
            k + rest@.len() == all.len(),
            all.len() <= usize::MAX,
            rest@ == all.skip(k as int),
            pages@ == xlsx_pages(all.take(k as int)),
            assets@ == xlsx_assets(all.take(k as int)),
            warnings@.len() == xlsx_notices(all.take(k as int), options.extract_comments).len(),
            forall|j: int|
                0 <= j < warnings@.len() ==> document_notice(
                    #[trigger] warnings@[j],
                    "warning"@,
                    xlsx_notices(all.take(k as int), options.extract_comments)[j].0,
                    xlsx_notices(all.take(k as int), options.extract_comments)[j].1,
                ),
            ht == any_sheet_tables(all.take(k as int)),
            hi == any_sheet_images(all.take(k as int)),
            hf == any_sheet_formulas(all.take(k as int)),
        decreases rest@.len(),
    {
        proof {
            lemma_xlsx_step(all, k as int, options.extract_comments);
            assert(all.skip(k as int)[0] == all[k as int]);
        }
        let ghost w0 = warnings@;
        let ghost n0 = xlsx_notices(all.take(k as int), options.extract_comments);
        let sheet = rest.remove(0);
        match sheet {
            XlsxSheetRead::Unreadable { name, error } => {
                let mut v: Vec<char> = Vec::new();
                push_str_chars(&mut v, "Не удалось прочитать лист '");
                push_str_chars(&mut v, name.as_str());
                push_str_chars(&mut v, "': ");
                push_str_chars(&mut v, error.as_str());
                warnings.push(diagnostic("XLSX_SHEET_READ_FAILED", "warning", "document", string_from_chars(v.as_slice()).as_str()));
            },
            XlsxSheetRead::Read(out) => {
                let SheetOutput { page, assets: sheet_assets, next_global: _, has_formulas } = out;
                let t = page.page_profile.has_tables;
                let i = page.page_profile.has_images;
                pages.push(page);
                let mut sa = sheet_assets;
                let ghost sav = sa@;
                let ghost a0 = assets@;
                let mut q: usize = 0;
                assert(sav.len() == sa.len());
                while sa.len() > 0
                    invariant
                        q + sa@.len() == sav.len(),
                        sav.len() <= usize::MAX,
                        sa@ == sav.skip(q as int),
                        assets@ == a0 + sav.take(q as int),
                    decreases sa@.len(),
                {
                    assert(sav.skip(q as int)[0] == sav[q as int]);
                    let a = sa.remove(0);
                    assets.push(a);
                    q = q + 1;
                    assert(sav.take(q as int) =~= sav.take(q - 1).push(sav[q - 1]));
                    assert(sav.skip(q as int) =~= sav.skip(q - 1).drop_first());
                }
                assert(sav.take(q as int) =~= sav);
                if options.extract_comments {
                    warnings.push(diagnostic("XLSX_COMMENTS_SKIPPED", "warning", "document", "Комментарии XLSX пока пропущены: текущий backend не извлекает comments.xml"));
                }
                ht = ht || t;
                hi = hi || i;
                hf = hf || has_formulas;
            },
        }
        proof {
            let n1 = xlsx_notices(all.take(k + 1), options.extract_comments);
            assert forall|j: int| 0 <= j < warnings@.len() implies document_notice(#[trigger] warnings@[j], "warning"@, n1[j].0, n1[j].1) by {
                if j < w0.len() {
                    assert(warnings@[j] == w0[j]);
                    assert(n1[j] == n0[j]);
                }
            }
            let t1 = all.take(k + 1);
            let t0 = all.take(k as int);
            assert forall|i: int| 0 <= i < k implies #[trigger] t1[i] == t0[i] by {}
            assert(t1[k as int] == all[k as int]);
            if any_sheet_tables(t0) {
                let i = choose|i: int| 0 <= i < t0.len() && (#[trigger] t0[i] matches XlsxSheetRead::Read(out) && out.page.page_profile.has_tables);
                assert(t1[i] == t0[i]);
            }
            if any_sheet_images(t0) {
                let i = choose|i: int| 0 <= i < t0.len() && (#[trigger] t0[i] matches XlsxSheetRead::Read(out) && out.page.page_profile.has_images);
                assert(t1[i] == t0[i]);
            }
            if any_sheet_formulas(t0) {
                let i = choose|i: int| 0 <= i < t0.len() && (#[trigger] t0[i] matches XlsxSheetRead::Read(out) && out.has_formulas);
                assert(t1[i] == t0[i]);
            }
            if any_sheet_tables(t1) {
                let i = choose|i: int| 0 <= i < t1.len() && (#[trigger] t1[i] matches XlsxSheetRead::Read(out) && out.page.page_profile.has_tables);
                if i < k {
                    assert(t0[i] == t1[i]);
                }
            }
            if any_sheet_images(t1) {
                let i = choose|i: int| 0 <= i < t1.len() && (#[trigger] t1[i] matches XlsxSheetRead::Read(out) && out.page.page_profile.has_images);
                if i < k {
                    assert(t0[i] == t1[i]);
                }
            }
            if any_sheet_formulas(t1) {
                let i = choose|i: int| 0 <= i < t1.len() && (#[trigger] t1[i] matches XlsxSheetRead::Read(out) && out.has_formulas);
                if i < k {
                    assert(t0[i] == t1[i]);
                }
            }
        }
        k = k + 1;
        proof {
            assert(all.skip(k as int) =~= all.skip(k - 1).drop_first());
        }
    }
    assert(all.take(k as int) =~= all);
    m.pages = pages;
    m.assets = assets;
    m.warnings = warnings;
    m.document_profile.has_tables = ht;
    m.document_profile.has_images = hi;
    m.document_profile.has_formulas = hf;
    m.document_profile.has_native_text = true;
    m.document_profile.document_type_guess = Some(to_owned_string("spreadsheet"));
    m.processing.stages.push(stage("xlsx_open_workbook", "calamine", 1));
    m.processing.stages.push(stage("xlsx_extract_sheets", "xlsx_ooxml_parser", 1));
    m.processing.stages.push(stage("xlsx_detect_ranges", "xlsx_ooxml_parser", 1));
    m.processing.stages.push(stage("xlsx_extract_tables", "xlsx_ooxml_parser", 1));
    m.processing.stages.push(stage("xlsx_extract_formulas", "xlsx_ooxml_parser", 1));
    m.processing.stages.push(stage("xlsx_extract_media", "xlsx_ooxml_parser", 1));
    m.processing.stages.push(stage("xlsx_chunking", "semantic_chunker", 0));
    proof {
        if !options.extract_sheets {
            assert(xlsx_pages(Seq::<XlsxSheetRead>::empty()) =~= Seq::<Page>::empty());
        }
    }
    update_stats(&mut m);
    m.processing.total_duration_ms = Some(m.processing.stages.len() as u64);
    m
}


/// A sheet of the workbook, as reading it gave it.
pub enum XlsxSheetSource {
    /// The sheet `name` could not be read, for the reason `error`.
    Unreadable { name: String, error: String },
    /// The sheet `name` with its rows of cell texts, the table ranges detected on it,
    /// the renderings of its segments and its images (see [`build_xlsx_sheet`]).
    Found {
        name: String,
        rows: Vec<Vec<String>>,
        detected: Vec<TableRange>,
        renderings: Vec<SegmentRendering>,
        images: Vec<SheetImage>,
    },
}

/// The workbook-wide number of the first element of the sheet after `sources`: 1,
/// and one more for each segment of a sheet that was found.
pub open spec fn global_before(sources: Seq<XlsxSheetSource>, o: XlsxOptions) -> nat
    decreases sources.len(),
{
    if sources.len() == 0 {
        1
    } else {
        global_before(sources.drop_last(), o) + match sources.last() {
            XlsxSheetSource::Found { rows, detected, .. } => sheet_segments_of(rows@, detected@, o).len(),
            XlsxSheetSource::Unreadable { .. } => 0,
        }
    }
}

/// Each sheet that was found fits the counters of its page, numbered on from the
/// sheets before it, and comes with one rendering per segment.
pub open spec fn sheet_sources_fit(sources: Seq<XlsxSheetSource>, o: XlsxOptions) -> bool {
    &&& sources.len() < u32::MAX
    &&& forall|i: int|
        0 <= i < sources.len() ==> match #[trigger] sources[i] {
            XlsxSheetSource::Found { rows, detected, renderings, images, .. } => {
                &&& sheet_fits(rows@, detected@, o, images@, global_before(sources.take(i), o))
                &&& renderings@.len() == sheet_segments_of(rows@, detected@, o).len()
            },
            XlsxSheetSource::Unreadable { .. } => true,
        }
}

/// `r` is the sheet `s`, the `i`-th of the workbook (from 0), its elements numbered
/// on from `global`, read after sheets that met formulas as `hf` says: a sheet that
/// could not be read stays so; a sheet that was found is the page numbered `i + 1`
/// that [`build_xlsx_sheet`] makes of it, under its name.
pub open spec fn sheet_read_is(r: XlsxSheetRead, s: XlsxSheetSource, i: nat, o: XlsxOptions, global: nat, hf: bool) -> bool {
    match s {
        XlsxSheetSource::Unreadable { name, error } => r == XlsxSheetRead::Unreadable { name, error },
        XlsxSheetSource::Found { name, rows, detected, renderings, images } => r matches XlsxSheetRead::Read(out)
            && xlsx_sheet(out, i, name@, rows@, detected@, renderings@, images@, o, global, hf)
            && out.page.page_number == i + 1,
    }
}

/// `reads` are the sheets `sources`, read in order.
pub open spec fn sheets_read(reads: Seq<XlsxSheetRead>, sources: Seq<XlsxSheetSource>, o: XlsxOptions) -> bool {
    &&& reads.len() == sources.len()
    &&& forall|i: int|
        0 <= i < sources.len() ==> sheet_read_is(
            #[trigger] reads[i],
            sources[i],
            i as nat,
            o,
            global_before(sources.take(i), o),
            any_sheet_formulas(reads.take(i)),
        )
}

proof fn lemma_formulas_push(reads: Seq<XlsxSheetRead>, x: XlsxSheetRead)
    ensures
        any_sheet_formulas(reads.push(x)) == (any_sheet_formulas(reads) || (x matches XlsxSheetRead::Read(out) && out.has_formulas)),
{
    let p = reads.push(x);
    assert(p[reads.len() as int] == x);
    if any_sheet_formulas(reads) {
        let i = choose|i: int| 0 <= i < reads.len() && (#[trigger] reads[i] matches XlsxSheetRead::Read(out) && out.has_formulas);
        assert(p[i] == reads[i]);
    }
    if any_sheet_formulas(p) {
        let i = choose|i: int| 0 <= i < p.len() && (#[trigger] p[i] matches XlsxSheetRead::Read(out) && out.has_formulas);
        if i < reads.len() {
            assert(p[i] == reads[i]);
        }
    }
}

/// Reads the sheets in order: sheet `i` (from 0) becomes page `i + 1` (see
/// [`build_xlsx_sheet`]), its elements numbered on across the workbook from 1, told
/// whether the sheets before it met formulas; a sheet that could not be read stays so.
#[verifier::spinoff_prover]
#[verifier::rlimit(40)]
pub fn xlsx_sheet_reads(sources: Vec<XlsxSheetSource>, options: &XlsxOptions) -> (r: Vec<XlsxSheetRead>)
    requires
        sheet_sources_fit(sources@, *options),
    ensures
        sheets_read(r@, sources@, *options),
{
    let ghost all = sources@;
    let mut out: Vec<XlsxSheetRead> = Vec::new();
    let mut rest = sources;
    let mut i: usize = 0;
    let mut global: u32 = 1;
    let mut hf = false;
    assert(all.len() == rest.len());
    assert(all.take(0) =~= Seq::<XlsxSheetSource>::empty());
    while rest.len() > 0
        invariant
            i + rest@.len() == all.len(),
            all.len() < u32::MAX,
            rest@ == all.skip(i as int),
            sheet_sources_fit(all, *options),
            out@.len() == i,
            global == global_before(all.take(i as int), *options),
            forall|j: int|
                0 <= j < i ==> sheet_read_is(
                    #[trigger] out@[j],
                    all[j],
                    j as nat,
                    *options,
                    global_before(all.take(j), *options),
                    any_sheet_formulas(out@.take(j)),
                ),
            hf == any_sheet_formulas(out@),
        decreases rest@.len(),
    {
        assert(all.skip(i as int)[0] == all[i as int]);
        assert(all.take(i + 1).drop_last() =~= all.take(i as int));
        let src = rest.remove(0);
        let ghost o0 = out@;
        let ghost g0 = global;
        let read = match src {
            XlsxSheetSource::Unreadable { name, error } => XlsxSheetRead::Unreadable { name, error },
            XlsxSheetSource::Found { name, rows, detected, renderings, images } => {
                assert(match all[i as int] {
                    XlsxSheetSource::Found { rows, detected, renderings, images, .. } => sheet_fits(
                        rows@,
                        detected@,
                        *options,
                        images@,
                        global_before(all.take(i as int), *options),
                    ) && renderings@.len() == sheet_segments_of(rows@, detected@, *options).len(),
                    _ => true,
                });
                let o = build_xlsx_sheet(i, &name, &rows, &detected, &renderings, images, options, global, hf);
                global = o.next_global;
                XlsxSheetRead::Read(o)
            },
        };
        proof {
            lemma_formulas_push(o0, read);
        }
        let f = match &read {
            XlsxSheetRead::Read(o) => o.has_formulas,
            _ => false,
        };
        out.push(read);
        hf = hf || f;
        proof {
            assert(out@.take(i as int) =~= o0);
            assert forall|j: int| 0 <= j < i + 1 implies sheet_read_is(
                #[trigger] out@[j],
                all[j],
                j as nat,
                *options,
                global_before(all.take(j), *options),
                any_sheet_formulas(out@.take(j)),
            ) by {
                if j < i {
                    assert(out@[j] == o0[j]);
                    assert(out@.take(j) =~= o0.take(j));
                }
            }
            assert(out@ =~= o0.push(read));
        }
        i = i + 1;
        assert(all.skip(i as int) =~= all.skip(i - 1).drop_first());
    }
    out
}

/// The model of a workbook from what reading its sheets gave: the sheets are read
/// in order (see [`xlsx_sheet_reads`]), so that the page of the `i`-th sheet (from 0)
/// is numbered `i + 1`, and the model is built from them (see
/// [`build_xlsx_document`]).
#[verifier::spinoff_prover]
pub fn build_xlsx_workbook(
    classification: &FileClassification,
    options: &XlsxOptions,
    sources: Vec<XlsxSheetSource>,
    processed_at: Option<String>,
) -> (m: DocumentModel)
    requires
        classification.input_path@.len() < 0x7fff_ffff_ffff_ffff,
        sheet_sources_fit(sources@, *options),
        options.extract_sheets ==> forall|reads: Seq<XlsxSheetRead>|
            #[trigger] sheets_read(reads, sources@, *options) ==> stats_fit_spec(xlsx_pages(reads)),
    ensures
        exists|reads: Vec<XlsxSheetRead>|
            sheets_read(reads@, sources@, *options) && xlsx_document(m, *classification, *options, reads@, processed_at),
{
    let ghost sv = sources@;
    let reads = xlsx_sheet_reads(sources, options);
    let ghost rv = reads;
    let m = build_xlsx_document(classification, options, reads, processed_at);
    assert(sheets_read(rv@, sv, *options));
    m
}

} // verus!
