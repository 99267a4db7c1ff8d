//! The tables of a Word document: rows and cells found in the table markup, with
//! each cell's text, column span and merging.

use vstd::prelude::*;
use crate::extractors::docx::{
    either, opt_views, present_strings, regex_captures, regex_group1_captures, scoped_attr_value,
    scoped_attr_value_of, somes, CandidateElement,
};
use crate::extractors::html::{parse_usize, parse_usize_spec};
use crate::extractors::{default_confidence, provenance};
use crate::model::{Element, ElementType};
use crate::text::{
    decimal, decimal_string, join, join_strings, push_str_chars, seq_contains, str_contains, string_from_chars,
    to_owned_string, views,
};

verus! {

/// The pattern of a table row; group 1 is its content.
pub open spec fn row_pattern() -> Seq<char> {
    "(?s)<w:tr\\b[^>]*>(.*?)</w:tr>"@
}

/// The pattern of a table cell; group 1 is its content.
pub open spec fn cell_pattern() -> Seq<char> {
    "(?s)<w:tc\\b[^>]*>(.*?)</w:tc>"@
}

/// The pattern of a text run; group 1 is its text.
pub open spec fn text_pattern() -> Seq<char> {
    "(?s)<w:t(?:\\s[^>]*)?>(.*?)</w:t>"@
}

/// The text of a cell: its text runs, joined.
pub open spec fn cell_text_of(inner: Seq<char>) -> Seq<char> {
    match regex_group1_captures(text_pattern(), inner) {
        Some(v) => join(somes(v), ""@),
        None => Seq::empty(),
    }
}

/// The columns a cell spans: its `w:gridSpan` value (`w:val`, else `val`) where
/// that reads as a number, else 1.
pub open spec fn colspan_of(inner: Seq<char>) -> nat {
    match either(
        scoped_attr_value_of(inner, "<w:gridSpan"@, "w:val="@),
        scoped_attr_value_of(inner, "<w:gridSpan"@, "val="@),
    ) {
        Some(v) => match parse_usize_spec(v) {
            Some(n) => n,
            None => 1,
        },
        None => 1,
    }
}

/// A cell is merged when it spans columns or takes part in a vertical merge.
pub open spec fn merged_of(inner: Seq<char>) -> bool {
    colspan_of(inner) > 1 || seq_contains(inner, "<w:vMerge"@)
}

/// The cells of row `r` from the captures of its cells, as `(row, column,
/// column span, text, merged)`, numbered by column in order.
pub open spec fn row_cells(r: nat, caps: Seq<Option<Seq<char>>>) -> Seq<(nat, nat, nat, Seq<char>, bool)>
    decreases caps.len(),
{
    if caps.len() == 0 {
        Seq::empty()
    } else {
        let prev = row_cells(r, caps.drop_last());
        match caps.last() {
            Some(inner) => prev.push((r, prev.len(), colspan_of(inner), cell_text_of(inner), merged_of(inner))),
            None => prev,
        }
    }
}

/// The cells, row count and column count of the captured rows: a row counts by its
/// position among the captures, the columns are those of the widest row; nothing
/// where the cell pattern does not compile.
pub open spec fn table_scan(rows: Seq<Option<Seq<char>>>) -> Option<(Seq<(nat, nat, nat, Seq<char>, bool)>, nat, nat)>
    decreases rows.len(),
{
    if rows.len() == 0 {
        Some((Seq::empty(), 0, 0))
    } else {
        match table_scan(rows.drop_last()) {
            None => None,
            Some(s) => match rows.last() {
                None => Some(s),
                Some(inner) => match regex_group1_captures(cell_pattern(), inner) {
                    None => None,
                    Some(cc) => {
                        let rc = row_cells((rows.len() - 1) as nat, cc);
                        Some((s.0 + rc, rows.len(), if rc.len() > s.2 { rc.len() } else { s.2 }))
                    },
                },
            },
        }
    }
}

/// The table in the markup `xml`, unless it has no row, column or cell.
pub open spec fn docx_table_of(xml: Seq<char>) -> Option<(Seq<(nat, nat, nat, Seq<char>, bool)>, nat, nat)> {
    match regex_group1_captures(row_pattern(), xml) {
        None => None,
        Some(rows) => match table_scan(rows) {
            None => None,
            Some(s) => if s.1 == 0 || s.2 == 0 || s.0.len() == 0 {
                None
            } else {
                Some(s)
            },
        },
    }
}

/// Some cell is merged.
pub open spec fn any_merged(cs: Seq<(nat, nat, nat, Seq<char>, bool)>) -> bool {
    exists|i: int| 0 <= i < cs.len() && (#[trigger] cs[i]).4
}

pub open spec fn cell_texts(cs: Seq<(nat, nat, nat, Seq<char>, bool)>) -> Seq<Seq<char>> {
    cs.map_values(|c: (nat, nat, nat, Seq<char>, bool)| c.3)
}

/// A cell of a table.
pub struct DocxTableCell {
    pub row: usize,
    pub column: usize,
    pub rowspan: usize,
    pub colspan: usize,
    pub text: String,
    pub is_header: bool,
}

/// `c` is the cell `v`: one row high, a header in the first row.
pub open spec fn cell_is(c: DocxTableCell, v: (nat, nat, nat, Seq<char>, bool)) -> bool {
    &&& c.row == v.0
    &&& c.column == v.1
    &&& c.rowspan == 1
    &&& c.colspan == v.2
    &&& c.text@ == v.3
    &&& c.is_header == (v.0 == 0)
}

/// A table read from its markup: the candidate element, its cells, its size and
/// whether a cell is merged.
pub struct DocxTable {
    pub candidate: CandidateElement,
    pub cells: Vec<DocxTableCell>,
    pub rows: usize,
    pub columns: usize,
    pub has_merged_cells: bool,
}

/// `c` is the `index`-th table, with markup `xml` and cells, rows and columns `s`:
/// its text the cell texts joined by ` | `, its markup as raw content, its size and
/// merging as extra entries, a line more than it has rows.
pub open spec fn docx_table_element(
    c: CandidateElement,
    xml: Seq<char>,
    index: nat,
    s: (Seq<(nat, nat, nat, Seq<char>, bool)>, nat, nat),
) -> bool {
    let e = c.element;
    let text = join(cell_texts(s.0), " | "@);
    &&& e.element_id@ == "docx_table_"@ + decimal(index)
    &&& e.element_type == ElementType::Table
    &&& e.tag matches Some(t) && t@ == "w:tbl"@
    &&& e.role matches Some(t) && t@ == "data_table"@
    &&& e.reading_order.is_none() && e.global_order.is_none() && e.bbox.is_none()
    &&& e.text matches Some(t) && t@ == text
    &&& e.markdown.is_none() && e.html.is_none()
    &&& e.normalized_text matches Some(t) && t@ == text
    &&& e.raw matches Some(t) && t@ == xml
    &&& e.items@.len() == 0
    &&& !e.exclude_from_chunks
    &&& e.table_linearized@.len() == 0
    &&& e.provenance.method@ == "native"@
    &&& e.provenance.tool@ == "docx_ooxml_parser"@
    &&& e.provenance.stage@ == "docx_table_extraction"@
    &&& e.provenance.source_kind matches Some(t) && t@ == "xml"@
    &&& e.provenance.source_value matches Some(t) && t@ == "word/document.xml"@
    &&& e.confidence_permille == 990
    &&& e.warnings@.len() == 0
    &&& e.extra@.len() == 3
    &&& e.extra@[0].0@ == "rows"@ && e.extra@[0].1@ == decimal(s.1)
    &&& e.extra@[1].0@ == "columns"@ && e.extra@[1].1@ == decimal(s.2)
    &&& e.extra@[2].0@ == "has_merged_cells"@ && e.extra@[2].1@ == (if any_merged(s.0) {
        "true"@
    } else {
        "false"@
    })
    &&& c.estimated_lines == s.1 + 1
}

/// `t` is the `index`-th table, with markup `xml` and cells, rows and columns `s`.
pub open spec fn docx_table_is(
    t: DocxTable,
    xml: Seq<char>,
    index: nat,
    s: (Seq<(nat, nat, nat, Seq<char>, bool)>, nat, nat),
) -> bool {
    &&& t.rows == s.1
    &&& t.columns == s.2
    &&& t.has_merged_cells == any_merged(s.0)
    &&& t.cells@.len() == s.0.len()
    &&& forall|q: int| 0 <= q < s.0.len() ==> cell_is(#[trigger] t.cells@[q], s.0[q])
    &&& docx_table_element(t.candidate, xml, index, s)
}

proof fn lemma_any_merged_push(cs: Seq<(nat, nat, nat, Seq<char>, bool)>, x: (nat, nat, nat, Seq<char>, bool))
    ensures
        any_merged(cs.push(x)) == (any_merged(cs) || x.4),
{
    let p = cs.push(x);
    if any_merged(cs) {
        let i = choose|i: int| 0 <= i < cs.len() && (#[trigger] cs[i]).4;
        assert(p[i] == cs[i]);
    }
    if x.4 {
        assert(p[cs.len() as int] == x);
    }
    if any_merged(p) {
        let i = choose|i: int| 0 <= i < p.len() && (#[trigger] p[i]).4;
        if i < cs.len() {
            assert(p[i] == cs[i]);
        }
    }
}

proof fn lemma_any_merged_concat(a: Seq<(nat, nat, nat, Seq<char>, bool)>, b: Seq<(nat, nat, nat, Seq<char>, bool)>)
    ensures
        any_merged(a + b) == (any_merged(a) || any_merged(b)),
    decreases b.len(),
{
    if b.len() == 0 {
        assert(a + b =~= a);
    } else {
        lemma_any_merged_concat(a, b.drop_last());
        lemma_any_merged_push(a + b.drop_last(), b.last());
        lemma_any_merged_push(b.drop_last(), b.last());
        assert(a + b =~= (a + b.drop_last()).push(b.last()));
        assert(b =~= b.drop_last().push(b.last()));
    }
}

proof fn lemma_scan_none_grows(rows: Seq<Option<Seq<char>>>, i: int)
    requires
        0 <= i <= rows.len(),
        table_scan(rows.take(i)).is_none(),
    ensures
        table_scan(rows).is_none(),
    decreases rows.len() - i,
{
    if i < rows.len() {
        assert(rows.take(i + 1).drop_last() =~= rows.take(i));
        lemma_scan_none_grows(rows, i + 1);
    } else {
        assert(rows.take(i) =~= rows);
    }
}

/// The text of a cell (see [`cell_text_of`]).
fn cell_text(inner: &str) -> (t: String)
    ensures
        t@ == cell_text_of(inner@),
{
    match regex_captures("(?s)<w:t(?:\\s[^>]*)?>(.*?)</w:t>", inner) {
        Some(v) => {
            let parts = present_strings(v);
            join_strings(&parts, "")
        },
        None => String::new(),
    }
}

/// The column span of a cell (see [`colspan_of`]).
fn cell_colspan(inner: &str) -> (n: usize)
    ensures
        n == colspan_of(inner@),
{
    let v = match scoped_attr_value(inner, "<w:gridSpan", "w:val=") {
        Some(x) => Some(x),
        None => scoped_attr_value(inner, "<w:gridSpan", "val="),
    };
    match v {
        Some(x) => match parse_usize(x.as_str()) {
            Some(n) => n,
            None => 1,
        },
        None => 1,
    }
}

/// The cells of row `r` (see [`row_cells`]) and whether one of them is merged.
fn read_row(caps: Vec<Option<String>>, r: usize) -> (res: (Vec<DocxTableCell>, bool))
    ensures
        res.0@.len() == row_cells(r as nat, opt_views(caps@)).len(),
        forall|q: int|
            0 <= q < res.0@.len() ==> cell_is(#[trigger] res.0@[q], row_cells(r as nat, opt_views(caps@))[q]),
        res.1 == any_merged(row_cells(r as nat, opt_views(caps@))),
{
    let ghost all = opt_views(caps@);
    let ghost vv = caps@;
    let mut out: Vec<DocxTableCell> = Vec::new();
    let mut merged = false;
    let mut rest = caps;
    let mut k: usize = 0;
    assert(vv.len() == rest.len());
    assert(all.take(0) =~= Seq::<Option<Seq<char>>>::empty());
    while rest.len() > 0
        invariant
            k + rest@.len() == vv.len(),
            vv.len() <= usize::MAX,
            rest@ == vv.skip(k as int),
            all == opt_views(vv),
            out@.len() == row_cells(r as nat, all.take(k as int)).len(),
            forall|q: int|
                0 <= q < out@.len() ==> cell_is(#[trigger] out@[q], row_cells(r as nat, all.take(k as int))[q]),
            merged == any_merged(row_cells(r as nat, all.take(k as int))),
        decreases rest@.len(),
    {
        proof {
            assert(all.take(k + 1).drop_last() =~= all.take(k as int));
            assert(vv.skip(k as int)[0] == vv[k as int]);
        }
        let ghost prev = row_cells(r as nat, all.take(k as int));
        let o = rest.remove(0);
        match o {
            Some(inner) => {
                let colspan = cell_colspan(inner.as_str());
                let text = cell_text(inner.as_str());
                let m = colspan > 1 || str_contains(inner.as_str(), "<w:vMerge");
                let ghost o0 = out@;
                out.push(DocxTableCell { row: r, column: out.len(), rowspan: 1, colspan, text, is_header: r == 0 });
                proof {
                    let x = (r as nat, prev.len(), colspan_of(inner@), cell_text_of(inner@), merged_of(inner@));
                    lemma_any_merged_push(prev, x);
                    assert forall|q: int| 0 <= q < out@.len() implies cell_is(#[trigger] out@[q], prev.push(x)[q]) by {
                        if q < o0.len() {
                            assert(out@[q] == o0[q]);
                        }
                    }
                }
                merged = merged || m;
            },
            None => {},
        }
        k = k + 1;
        assert(vv.skip(k as int) =~= vv.skip(k - 1).drop_first());
    }
    assert(all.take(k as int) =~= all);
    (out, merged)
}

/// Reads the `index`-th table of a document from its markup `table_xml`: the rows
/// and, in each, the cells that the row and cell patterns capture, each with its
/// text, column span and whether it is merged; nothing for a table without rows,
/// columns or cells (see [`docx_table_of`] and [`docx_table_element`]).
#[verifier::spinoff_prover]
#[verifier::rlimit(60)]
pub fn make_table_element(table_xml: &str, index: usize) -> (r: Option<DocxTable>)
    requires
        table_xml@.len() + 2 < usize::MAX,
    ensures
        match docx_table_of(table_xml@) {
            None => r.is_none(),
            Some(s) => r matches Some(t) && docx_table_is(t, table_xml@, index as nat, s),
        },
{
    let rows = match regex_captures("(?s)<w:tr\\b[^>]*>(.*?)</w:tr>", table_xml) {
        Some(v) => v,
        None => return None,
    };
    let ghost all = opt_views(rows@);
    let ghost vv = rows@;
    let mut cells: Vec<DocxTableCell> = Vec::new();
    let ghost mut sc: Seq<(nat, nat, nat, Seq<char>, bool)> = Seq::empty();
    let mut nrows: usize = 0;
    let mut ncols: usize = 0;
    let mut merged = false;
    let mut rest = rows;
    let mut i: usize = 0;
    assert(vv.len() == rest.len());
    assert(all.take(0) =~= Seq::<Option<Seq<char>>>::empty());
    while rest.len() > 0
        invariant
            i + rest@.len() == vv.len(),
            vv.len() <= table_xml@.len() + 1,
            table_xml@.len() + 2 < usize::MAX,
            rest@ == vv.skip(i as int),
            all == opt_views(vv),
            all == regex_group1_captures(row_pattern(), table_xml@).unwrap(),
            regex_group1_captures(row_pattern(), table_xml@).is_some(),
            table_scan(all.take(i as int)) == Some((sc, nrows as nat, ncols as nat)),
            nrows <= i,
            cells@.len() == sc.len(),
            forall|q: int| 0 <= q < sc.len() ==> cell_is(#[trigger] cells@[q], sc[q]),
            merged == any_merged(sc),
        decreases rest@.len(),
    {
        proof {
            assert(all.take(i + 1).drop_last() =~= all.take(i as int));
            assert(vv.skip(i as int)[0] == vv[i as int]);
        }
        let o = rest.remove(0);
        match o {
            Some(inner) => {
                let cc = match regex_captures("(?s)<w:tc\\b[^>]*>(.*?)</w:tc>", inner.as_str()) {
                    Some(c) => c,
                    None => {
                        proof {
                            lemma_scan_none_grows(all, i + 1);
                        }
                        return None;
                    },
                };
                let ghost rc = row_cells(i as nat, opt_views(cc@));
                let (row, rm) = read_row(cc, i);
                let n = row.len();
                let ghost c0 = cells@;
                let mut rr = row;
                let ghost rv = rr@;
                let mut q: usize = 0;
                while rr.len() > 0
                    invariant
                        q + rr@.len() == rv.len(),
                        rv.len() <= usize::MAX,
                        rr@ == rv.skip(q as int),
                        cells@ == c0 + rv.take(q as int),
                    decreases rr@.len(),
                {
                    assert(rv.skip(q as int)[0] == rv[q as int]);
                    let c = rr.remove(0);
                    cells.push(c);
                    q = q + 1;
                    assert(rv.take(q as int) =~= rv.take(q - 1).push(rv[q - 1]));
                    assert(rv.skip(q as int) =~= rv.skip(q - 1).drop_first());
                }
                assert(rv.take(q as int) =~= rv);
                proof {
                    lemma_any_merged_concat(sc, rc);
                    let s2 = sc + rc;
                    assert forall|k: int| 0 <= k < s2.len() implies cell_is(#[trigger] cells@[k], s2[k]) by {
                        if k < sc.len() {
                            assert(cells@[k] == c0[k]);
                        } else {
                            assert(cells@[k] == rv[k - sc.len()]);
                        }
                    }
                    sc = s2;
                }
                nrows = i + 1;
                if n > ncols {
                    ncols = n;
                }
                merged = merged || rm;
            },
            None => {},
        }
        i = i + 1;
        assert(vv.skip(i as int) =~= vv.skip(i - 1).drop_first());
    }
    assert(all.take(i as int) =~= all);
    if nrows == 0 || ncols == 0 || cells.len() == 0 {
        return None;
    }
    let mut texts: Vec<String> = Vec::new();
    let mut j: usize = 0;
    while j < cells.len()
        invariant
            j <= cells@.len(),
            cells@.len() == sc.len(),
            forall|q: int| 0 <= q < sc.len() ==> cell_is(#[trigger] cells@[q], sc[q]),
            views(texts@) == cell_texts(sc).take(j as int),
        decreases cells@.len() - j,
    {
        assert(cell_is(cells@[j as int], sc[j as int]));
        let ghost t0 = texts@;
        let t = cells[j].text.clone();
        assert(t@ == cell_texts(sc)[j as int]);
        texts.push(t);
        assert(views(texts@) =~= views(t0).push(t@));
        assert(cell_texts(sc).take(j + 1) =~= cell_texts(sc).take(j as int).push(cell_texts(sc)[j as int]));
        j = j + 1;
    }
    assert(cell_texts(sc).take(j as int) =~= cell_texts(sc));
    let text = join_strings(&texts, " | ");
    let mut id: Vec<char> = Vec::new();
    push_str_chars(&mut id, "docx_table_");
    push_str_chars(&mut id, decimal_string(index as u64).as_str());
    let mut extra: Vec<(String, String)> = Vec::new();
    extra.push((to_owned_string("rows"), decimal_string(nrows as u64)));
    extra.push((to_owned_string("columns"), decimal_string(ncols as u64)));
    extra.push((to_owned_string("has_merged_cells"), to_owned_string(if merged { "true" } else { "false" })));
    let candidate = CandidateElement {
        element: Element {
            element_id: string_from_chars(id.as_slice()),
            element_type: ElementType::Table,
            tag: Some(to_owned_string("w:tbl")),
            role: Some(to_owned_string("data_table")),
            reading_order: None,
            global_order: None,
            bbox: None,
            text: Some(text.clone()),
            markdown: None,
            html: None,
            normalized_text: Some(text),
            raw: Some(to_owned_string(table_xml)),
            items: Vec::new(),
            exclude_from_chunks: false,
            table_linearized: Vec::new(),
            provenance: provenance("docx_ooxml_parser", "docx_table_extraction", "xml", "word/document.xml"),
            confidence_permille: default_confidence(),
            warnings: Vec::new(),
            extra,
        },
        estimated_lines: nrows + 1,
    };
    proof {
        reveal_strlit("true");
        reveal_strlit("false");
    }
    Some(DocxTable { candidate, cells, rows: nrows, columns: ncols, has_merged_cells: merged })
}

} // verus!
