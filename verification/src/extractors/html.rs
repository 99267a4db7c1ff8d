//! HTML documents: headings, paragraphs, quotes, code, lists, tables and MathML
//! formulas picked out of the document with CSS selectors, in that order, on one
//! page.

use vstd::prelude::*;
use scraper::{ElementRef, Html, Selector};
use crate::classifier::{opt_string_view, FileClassification};
use crate::extractors::rtf::is_stage;
use crate::extractors::{
    base_document_model, count_pages, default_confidence, lemma_count_elements_grows, provenance,
    skeleton_model, stage, stats_for, update_stats, zero_count, StatsCount,
};
use crate::model::{
    BBox, ContentMode, Diagnostic, DocumentFormat, DocumentModel, Element, ElementType, Page,
    PageType, Provenance,
};
use crate::text::{
    decimal, decimal_chars, decimal_string, join, join_strings, push_chars, push_str_chars,
    str_trim, string_from_chars, to_owned_string, trim, views,
};
use crate::unicode::{to_lowercase, unicode_lower};

verus! {

/// The extractor of HTML documents.
pub struct HtmlExtractor;

impl HtmlExtractor {
    pub fn name(&self) -> (s: &'static str)
        ensures
            s@ == "html_extractor"@,
    {
        "html_extractor"
    }
}

/// An element that a selector picked out of a document: the text nodes under it,
/// in document order, and its own markup.
#[derive(Debug)]
pub struct HtmlNode {
    pub texts: Vec<String>,
    pub html: String,
}

/// A cell of an HTML table: its text nodes, its markup and its `rowspan` and
/// `colspan` attributes as written.
#[derive(Debug)]
pub struct HtmlCell {
    pub texts: Vec<String>,
    pub html: String,
    pub rowspan: Option<String>,
    pub colspan: Option<String>,
}

/// An HTML table: its markup and the cells of each of its rows.
#[derive(Debug)]
pub struct HtmlTable {
    pub html: String,
    pub rows: Vec<Vec<HtmlCell>>,
}

pub open spec fn node_view(n: HtmlNode) -> (Seq<Seq<char>>, Seq<char>) {
    (views(n.texts@), n.html@)
}

pub open spec fn nodes_view(v: Seq<HtmlNode>) -> Seq<(Seq<Seq<char>>, Seq<char>)> {
    v.map_values(|n: HtmlNode| node_view(n))
}

pub open spec fn cell_view(c: HtmlCell) -> (Seq<Seq<char>>, Seq<char>, Option<Seq<char>>, Option<Seq<char>>) {
    (views(c.texts@), c.html@, opt_string_view(c.rowspan), opt_string_view(c.colspan))
}

pub open spec fn row_view(r: Seq<HtmlCell>) -> Seq<(Seq<Seq<char>>, Seq<char>, Option<Seq<char>>, Option<Seq<char>>)> {
    r.map_values(|c: HtmlCell| cell_view(c))
}

pub open spec fn table_view(t: HtmlTable) -> (Seq<char>, Seq<Seq<(Seq<Seq<char>>, Seq<char>, Option<Seq<char>>, Option<Seq<char>>)>>) {
    (t.html@, t.rows@.map_values(|r: Vec<HtmlCell>| row_view(r@)))
}

pub open spec fn tables_view(v: Seq<HtmlTable>) -> Seq<(Seq<char>, Seq<Seq<(Seq<Seq<char>>, Seq<char>, Option<Seq<char>>, Option<Seq<char>>)>>)> {
    v.map_values(|t: HtmlTable| table_view(t))
}

/// The elements that the CSS selector `selector` matches in the HTML document
/// `document`, each as its text nodes and its markup; none where the selector does
/// not parse.
pub uninterp spec fn html_select(document: Seq<char>, selector: Seq<char>) -> Option<Seq<(Seq<Seq<char>>, Seq<char>)>>;

/// The tables that `table_css` matches in the HTML document `document`, each as its
/// markup and the rows that `row_css` matches in it, each row as the cells that
/// `cell_css` matches in it: text nodes, markup, `rowspan` and `colspan`; none
/// where a selector does not parse.
pub uninterp spec fn html_table_grid(document: Seq<char>, table_css: Seq<char>, row_css: Seq<char>, cell_css: Seq<char>) -> Option<Seq<(Seq<char>, Seq<Seq<(Seq<Seq<char>>, Seq<char>, Option<Seq<char>>, Option<Seq<char>>)>>)>>;

/// Calls scraper: `Selector::parse` on `selector`, `Html::parse_document` on
/// `document` and `Html::select`, and hands out each matched element's text nodes
/// (`ElementRef::text`) and markup (`ElementRef::html`). The contract names the
/// result and says that nothing comes back exactly where the name says so; how
/// HTML is parsed and matched is scraper's and is left unsaid.
#[verifier::external_body]
fn select_nodes(document: &str, selector: &str) -> (r: Option<Vec<HtmlNode>>)
    ensures
        match r {
            Some(v) => html_select(document@, selector@) == Some(nodes_view(v@)),
            None => html_select(document@, selector@).is_none(),
        },
{
    let selector = Selector::parse(selector).ok()?;
    let parsed = Html::parse_document(document);
    Some(parsed.select(&selector).map(|n| HtmlNode { texts: n.text().map(String::from).collect(), html: n.html() }).collect())
}

/// Calls scraper: `Selector::parse` on the three selectors and
/// `Html::parse_document` on `document`, then `select` with `table_css`, within
/// each table with `row_css` and within each row with `cell_css`, handing out each
/// table's markup and each cell's text nodes, markup and `rowspan` and `colspan`
/// attributes. Nothing comes back where a selector does not parse. The contract
/// names the result; how HTML is parsed and matched is scraper's and is left
/// unsaid.
#[verifier::external_body]
fn select_tables(document: &str, table_css: &str, row_css: &str, cell_css: &str) -> (r: Option<Vec<HtmlTable>>)
    ensures
        match r {
            Some(v) => html_table_grid(document@, table_css@, row_css@, cell_css@) == Some(tables_view(v@)),
            None => html_table_grid(document@, table_css@, row_css@, cell_css@).is_none(),
        },
{
    let parsed = Html::parse_document(document);
    let t = Selector::parse(table_css).ok()?;
    let r = Selector::parse(row_css).ok()?;
    let c = Selector::parse(cell_css).ok()?;
    let cell = |e: ElementRef| HtmlCell { texts: e.text().map(String::from).collect(), html: e.html(), rowspan: e.attr("rowspan").map(String::from), colspan: e.attr("colspan").map(String::from) };
    Some(parsed.select(&t).map(|x| HtmlTable { html: x.html(), rows: x.select(&r).map(|y| y.select(&c).map(cell).collect()).collect() }).collect())
}

/// The text of a node: its text nodes joined by spaces, trimmed.
pub open spec fn node_text(texts: Seq<Seq<char>>) -> Seq<char> {
    trim(join(texts, " "@))
}

fn node_text_exec(texts: &Vec<String>) -> (r: String)
    ensures
        r@ == node_text(views(texts@)),
{
    let j = join_strings(texts, " ");
    str_trim(j.as_str())
}

/// The value of ASCII digits, most significant first.
pub open spec fn digits_value(s: Seq<char>) -> nat
    decreases s.len(),
{
    if s.len() == 0 {
        0
    } else {
        digits_value(s.drop_last()) * 10 + (s.last() as nat - '0' as nat) as nat
    }
}

pub open spec fn all_digits(s: Seq<char>) -> bool {
    forall|i: int| 0 <= i < s.len() ==> crate::text::is_ascii_digit(#[trigger] s[i])
}

/// What std's `str::parse::<usize>` reads: an optional `+`, then one or more ASCII
/// digits whose value fits in `usize`.
pub open spec fn parse_usize_spec(s: Seq<char>) -> Option<nat> {
    let d = if s.len() > 0 && s[0] == '+' { s.drop_first() } else { s };
    if d.len() > 0 && all_digits(d) && digits_value(d) <= usize::MAX {
        Some(digits_value(d))
    } else {
        None
    }
}

proof fn lemma_digits_value_grows(s: Seq<char>, i: int)
    requires
        all_digits(s),
        0 <= i <= s.len(),
    ensures
        digits_value(s.take(i)) <= digits_value(s),
    decreases s.len() - i,
{
    if i < s.len() {
        lemma_digits_value_grows(s, i + 1);
        assert(s.take(i + 1).drop_last() =~= s.take(i));
    } else {
        assert(s.take(i) =~= s);
    }
}

/// Reads an unsigned integer as std's `str::parse::<usize>` does.
pub fn parse_usize(s: &str) -> (r: Option<usize>)
    ensures
        match r {
            Some(n) => parse_usize_spec(s@) == Some(n as nat),
            None => parse_usize_spec(s@).is_none(),
        },
{
    let v = crate::text::chars_of(s);
    let start: usize = if v.len() > 0 && v[0] == '+' { 1 } else { 0 };
    let ghost d = if s@.len() > 0 && s@[0] == '+' { s@.drop_first() } else { s@ };
    assert(d =~= v@.skip(start as int));
    if start >= v.len() {
        return None;
    }
    let mut value: usize = 0;
    let mut i: usize = start;
    while i < v.len()
        invariant
            start <= i <= v@.len(),
            start < v@.len(),
            v@ == s@,
            d == (if s@.len() > 0 && s@[0] == '+' { s@.drop_first() } else { s@ }),
            d == v@.skip(start as int),
            all_digits(v@.subrange(start as int, i as int)),
            value == digits_value(v@.subrange(start as int, i as int)),
        decreases v@.len() - i,
    {
        let c = v[i];
        assert(v@.subrange(start as int, i + 1).drop_last() =~= v@.subrange(start as int, i as int));
        if !crate::text::is_ascii_digit_char(c) {
            assert(d[i - start] == c);
            return None;
        }
        let digit: usize = (c as u32 - '0' as u32) as usize;
        let grown = match value.checked_mul(10) {
            Some(x) => x.checked_add(digit),
            None => None,
        };
        match grown {
            Some(x) => {
                value = x;
            },
            None => {
                proof {
                    let sub = v@.subrange(start as int, i + 1);
                    assert(sub.last() == c);
                    assert(digits_value(sub) == value * 10 + digit);
                    assert(digits_value(sub) > usize::MAX);
                    assert(v@.subrange(start as int, i + 1) =~= d.take(i + 1 - start));
                    assert(forall|k: int| 0 <= k < i + 1 - start ==> d.take(i + 1 - start)[k] == d[k]);
                    if all_digits(d) {
                        lemma_digits_value_grows(d, i + 1 - start);
                    }
                }
                return None;
            },
        }
        i = i + 1;
        assert(all_digits(v@.subrange(start as int, i as int)));
    }
    assert(v@.subrange(start as int, i as int) =~= d);
    Some(value)
}

/// The block selectors, in the order they are applied: each with the element type
/// it gives and, for headings, the heading level.
pub open spec fn block_selectors() -> Seq<(Seq<char>, ElementType, nat)> {
    seq![
        ("h1"@, ElementType::Heading, 1nat),
        ("h2"@, ElementType::Heading, 2nat),
        ("h3"@, ElementType::Heading, 3nat),
        ("h4"@, ElementType::Heading, 4nat),
        ("h5"@, ElementType::Heading, 5nat),
        ("h6"@, ElementType::Heading, 6nat),
        ("p"@, ElementType::Paragraph, 0nat),
        ("blockquote"@, ElementType::Blockquote, 0nat),
        ("pre"@, ElementType::Code, 0nat),
        ("code"@, ElementType::Code, 0nat),
        ("ul"@, ElementType::List, 0nat),
        ("ol"@, ElementType::List, 0nat),
        ("li"@, ElementType::ListItem, 0nat),
    ]
}

fn block_selector(k: usize) -> (r: (&'static str, ElementType, usize))
    requires
        k < 13,
    ensures
        (r.0@, r.1, r.2 as nat) == block_selectors()[k as int],
{
    match k {
        0 => ("h1", ElementType::Heading, 1),
        1 => ("h2", ElementType::Heading, 2),
        2 => ("h3", ElementType::Heading, 3),
        3 => ("h4", ElementType::Heading, 4),
        4 => ("h5", ElementType::Heading, 5),
        5 => ("h6", ElementType::Heading, 6),
        6 => ("p", ElementType::Paragraph, 0),
        7 => ("blockquote", ElementType::Blockquote, 0),
        8 => ("pre", ElementType::Code, 0),
        9 => ("code", ElementType::Code, 0),
        10 => ("ul", ElementType::List, 0),
        11 => ("ol", ElementType::List, 0),
        _ => ("li", ElementType::ListItem, 0),
    }
}

/// What the DOM queries found in a document: for each block selector the
/// elements it matched, the tables, the MathML formulas, and whether the document
/// has any image, table and formula.
#[derive(Debug)]
pub struct HtmlDom {
    pub blocks: Vec<Vec<HtmlNode>>,
    pub tables: Vec<HtmlTable>,
    pub formulas: Vec<HtmlNode>,
    pub has_images: bool,
    pub has_tables: bool,
    pub has_formulas: bool,
}

pub open spec fn blocks_view(blocks: Seq<Vec<HtmlNode>>) -> Seq<Seq<(Seq<Seq<char>>, Seq<char>)>> {
    blocks.map_values(|v: Vec<HtmlNode>| nodes_view(v@))
}

/// The nodes that `selector` matches, or none where it does not parse.
pub open spec fn selected_or_none(document: Seq<char>, selector: Seq<char>) -> Seq<(Seq<Seq<char>>, Seq<char>)> {
    match html_select(document, selector) {
        Some(v) => v,
        None => Seq::empty(),
    }
}

/// The tables of a document, or none where the table selectors do not parse.
pub open spec fn tables_or_none(document: Seq<char>) -> Seq<(Seq<char>, Seq<Seq<(Seq<Seq<char>>, Seq<char>, Option<Seq<char>>, Option<Seq<char>>)>>)> {
    match html_table_grid(document, "table"@, "tr"@, "th, td"@) {
        Some(v) => v,
        None => Seq::empty(),
    }
}

/// Every block selector parses.
pub open spec fn block_selectors_parse(document: Seq<char>) -> bool {
    forall|k: int| 0 <= k < 13 ==> (#[trigger] html_select(document, block_selectors()[k].0)).is_some()
}

/// `dom` is what the queries give for `document`.
pub open spec fn dom_of(dom: HtmlDom, document: Seq<char>) -> bool {
    &&& dom.blocks@.len() == 13
    &&& forall|k: int|
        0 <= k < 13 ==> html_select(document, (#[trigger] block_selectors()[k]).0) == Some(
            nodes_view(dom.blocks@[k]@),
        )
    &&& tables_view(dom.tables@) == tables_or_none(document)
    &&& nodes_view(dom.formulas@) == selected_or_none(document, "math"@)
    &&& dom.has_images == (selected_or_none(document, "img"@).len() > 0)
    &&& dom.has_tables == (selected_or_none(document, "table"@).len() > 0)
    &&& dom.has_formulas == (selected_or_none(document, "math"@).len() > 0)
}

fn select_or_empty(document: &str, selector: &str) -> (r: Vec<HtmlNode>)
    ensures
        nodes_view(r@) == selected_or_none(document@, selector@),
{
    match select_nodes(document, selector) {
        Some(v) => v,
        None => {
            let v: Vec<HtmlNode> = Vec::new();
            assert(nodes_view(v@) =~= Seq::<(Seq<Seq<char>>, Seq<char>)>::empty());
            v
        },
    }
}

/// Runs the DOM queries on `document`; nothing comes back where a block selector
/// does not parse.
pub fn query_html(document: &str) -> (r: Option<HtmlDom>)
    ensures
        match r {
            Some(dom) => dom_of(dom, document@),
            None => !block_selectors_parse(document@),
        },
{
    let mut blocks: Vec<Vec<HtmlNode>> = Vec::new();
    let mut k: usize = 0;
    while k < 13
        invariant
            k <= 13,
            blocks@.len() == k,
            forall|q: int|
                0 <= q < k ==> html_select(document@, (#[trigger] block_selectors()[q]).0) == Some(
                    nodes_view(blocks@[q]@),
                ),
        decreases 13 - k,
    {
        let sel = block_selector(k);
        match select_nodes(document, sel.0) {
            Some(v) => {
                blocks.push(v);
            },
            None => {
                assert(html_select(document@, block_selectors()[k as int].0).is_none());
                return None;
            },
        }
        k = k + 1;
    }
    let formulas = select_or_empty(document, "math");
    let images = select_or_empty(document, "img");
    let tables_found = select_or_empty(document, "table");
    let tables = match select_tables(document, "table", "tr", "th, td") {
        Some(v) => v,
        None => {
            let v: Vec<HtmlTable> = Vec::new();
            assert(tables_view(v@) =~= tables_or_none(document@));
            v
        },
    };
    Some(HtmlDom {
        blocks,
        tables,
        has_images: images.len() > 0,
        has_tables: tables_found.len() > 0,
        has_formulas: formulas.len() > 0,
        formulas,
    })
}

/// A block element to be: its type, selector, heading level, text and markup.
pub open spec fn block_item(sel: (Seq<char>, ElementType, nat), node: (Seq<Seq<char>>, Seq<char>)) -> (ElementType, Seq<char>, nat, Seq<char>, Seq<char>) {
    (sel.1, sel.0, sel.2, node_text(node.0), node.1)
}

/// The nodes that a block selector matched, less those without text.
pub open spec fn kept_blocks(
    nodes: Seq<(Seq<Seq<char>>, Seq<char>)>,
    sel: (Seq<char>, ElementType, nat),
) -> Seq<(ElementType, Seq<char>, nat, Seq<char>, Seq<char>)>
    decreases nodes.len(),
{
    if nodes.len() == 0 {
        Seq::empty()
    } else {
        let prev = kept_blocks(nodes.drop_last(), sel);
        if node_text(nodes.last().0).len() == 0 {
            prev
        } else {
            prev.push(block_item(sel, nodes.last()))
        }
    }
}

/// The block elements to be from the first `n` selectors, selector by selector.
pub open spec fn block_items(
    lists: Seq<Seq<(Seq<Seq<char>>, Seq<char>)>>,
    n: nat,
) -> Seq<(ElementType, Seq<char>, nat, Seq<char>, Seq<char>)>
    decreases n,
{
    if n == 0 {
        Seq::empty()
    } else {
        block_items(lists, (n - 1) as nat) + kept_blocks(lists[n - 1], block_selectors()[n - 1])
    }
}

/// A block element to be, as the extractor keeps it.
#[derive(Debug)]
pub struct BlockRow {
    pub kind: ElementType,
    pub tag: &'static str,
    pub level: usize,
    pub text: String,
    pub raw: String,
}

pub open spec fn block_row_view(b: BlockRow) -> (ElementType, Seq<char>, nat, Seq<char>, Seq<char>) {
    (b.kind, b.tag@, b.level as nat, b.text@, b.raw@)
}

pub open spec fn block_rows_view(v: Seq<BlockRow>) -> Seq<(ElementType, Seq<char>, nat, Seq<char>, Seq<char>)> {
    v.map_values(|b: BlockRow| block_row_view(b))
}

fn collect_blocks(blocks: &Vec<Vec<HtmlNode>>) -> (r: Vec<BlockRow>)
    requires
        blocks@.len() == 13,
    ensures
        block_rows_view(r@) == block_items(blocks_view(blocks@), 13),
{
    let ghost lists = blocks_view(blocks@);
    let mut out: Vec<BlockRow> = Vec::new();
    let mut k: usize = 0;
    while k < 13
        invariant
            k <= 13,
            blocks@.len() == 13,
            lists == blocks_view(blocks@),
            block_rows_view(out@) == block_items(lists, k as nat),
        decreases 13 - k,
    {
        let sel = block_selector(k);
        let nodes = &blocks[k];
        let ghost base = out@;
        let ghost nv = nodes_view(nodes@);
        assert(nv == lists[k as int]);
        let mut j: usize = 0;
        while j < nodes.len()
            invariant
                j <= nodes@.len(),
                k < 13,
                nv == nodes_view(nodes@),
                (sel.0@, sel.1, sel.2 as nat) == block_selectors()[k as int],
                block_rows_view(out@) == block_rows_view(base) + kept_blocks(nv.take(j as int), block_selectors()[k as int]),
            decreases nodes@.len() - j,
        {
            let t = node_text_exec(&nodes[j].texts);
            proof {
                assert(nv.take(j + 1).drop_last() =~= nv.take(j as int));
                assert(nv.take(j + 1).last() == node_view(nodes@[j as int]));
            }
            if !t.as_str().is_empty() {
                let ghost before = out@;
                out.push(BlockRow { kind: sel.1, tag: sel.0, level: sel.2, text: t, raw: nodes[j].html.clone() });
                assert(block_rows_view(out@) =~= block_rows_view(before).push(block_row_view(out@.last())));
            } else {
                assert(t@.len() == 0);
            }
            j = j + 1;
        }
        assert(nv.take(j as int) =~= nv);
        k = k + 1;
        assert(block_rows_view(out@) =~= block_items(lists, k as nat));
    }
    out
}

/// The widest row's number of cells.
pub open spec fn max_cols(rows: Seq<Seq<(Seq<Seq<char>>, Seq<char>, Option<Seq<char>>, Option<Seq<char>>)>>) -> nat
    decreases rows.len(),
{
    if rows.len() == 0 {
        0
    } else {
        let m = max_cols(rows.drop_last());
        if rows.last().len() > m {
            rows.last().len()
        } else {
            m
        }
    }
}

pub open spec fn row_texts(row: Seq<(Seq<Seq<char>>, Seq<char>, Option<Seq<char>>, Option<Seq<char>>)>) -> Seq<Seq<char>> {
    row.map_values(|c: (Seq<Seq<char>>, Seq<char>, Option<Seq<char>>, Option<Seq<char>>)| node_text(c.0))
}

/// The texts of all cells, row by row.
pub open spec fn cell_texts(rows: Seq<Seq<(Seq<Seq<char>>, Seq<char>, Option<Seq<char>>, Option<Seq<char>>)>>) -> Seq<Seq<char>>
    decreases rows.len(),
{
    if rows.len() == 0 {
        Seq::empty()
    } else {
        cell_texts(rows.drop_last()) + row_texts(rows.last())
    }
}

/// A span attribute as read: its number where it parses, else 1.
pub open spec fn span_of(a: Option<Seq<char>>) -> nat {
    match a {
        Some(s) => match parse_usize_spec(s) {
            Some(n) => n,
            None => 1,
        },
        None => 1,
    }
}

pub open spec fn cell_merged(c: (Seq<Seq<char>>, Seq<char>, Option<Seq<char>>, Option<Seq<char>>)) -> bool {
    span_of(c.2) > 1 || span_of(c.3) > 1
}

pub open spec fn row_merged(row: Seq<(Seq<Seq<char>>, Seq<char>, Option<Seq<char>>, Option<Seq<char>>)>) -> bool
    decreases row.len(),
{
    if row.len() == 0 {
        false
    } else {
        row_merged(row.drop_last()) || cell_merged(row.last())
    }
}

/// Some cell spans more than one row or column.
pub open spec fn rows_merged(rows: Seq<Seq<(Seq<Seq<char>>, Seq<char>, Option<Seq<char>>, Option<Seq<char>>)>>) -> bool
    decreases rows.len(),
{
    if rows.len() == 0 {
        false
    } else {
        rows_merged(rows.drop_last()) || row_merged(rows.last())
    }
}

/// A table element to be: its text (the cell texts joined by ` | `), its markup,
/// its numbers of rows and columns, and whether a cell spans several.
pub open spec fn table_item(t: (Seq<char>, Seq<Seq<(Seq<Seq<char>>, Seq<char>, Option<Seq<char>>, Option<Seq<char>>)>>)) -> (Seq<char>, Seq<char>, nat, nat, bool) {
    (join(cell_texts(t.1), " | "@), t.0, t.1.len(), max_cols(t.1), rows_merged(t.1))
}

/// The tables that have at least one row and one column.
pub open spec fn kept_tables(ts: Seq<(Seq<char>, Seq<Seq<(Seq<Seq<char>>, Seq<char>, Option<Seq<char>>, Option<Seq<char>>)>>)>) -> Seq<(Seq<char>, Seq<char>, nat, nat, bool)>
    decreases ts.len(),
{
    if ts.len() == 0 {
        Seq::empty()
    } else {
        let prev = kept_tables(ts.drop_last());
        let t = ts.last();
        if t.1.len() == 0 || max_cols(t.1) == 0 {
            prev
        } else {
            prev.push(table_item(t))
        }
    }
}

/// A table element to be, as the extractor keeps it.
#[derive(Debug)]
pub struct TableRow {
    pub text: String,
    pub raw: String,
    pub rows: usize,
    pub cols: usize,
    pub merged: bool,
}

pub open spec fn table_rows_view(v: Seq<TableRow>) -> Seq<(Seq<char>, Seq<char>, nat, nat, bool)> {
    v.map_values(|t: TableRow| (t.text@, t.raw@, t.rows as nat, t.cols as nat, t.merged))
}

fn span_exec(a: &Option<String>) -> (r: usize)
    ensures
        span_of(opt_string_view(*a)) == r,
{
    match a {
        Some(s) => match parse_usize(s.as_str()) {
            Some(n) => n,
            None => 1,
        },
        None => 1,
    }
}

fn table_of(t: &HtmlTable) -> (r: TableRow)
    ensures
        (r.text@, r.raw@, r.rows as nat, r.cols as nat, r.merged) == table_item(table_view(*t)),
{
    let ghost rows = table_view(*t).1;
    let mut texts: Vec<String> = Vec::new();
    let mut cols: usize = 0;
    let mut merged = false;
    let mut r: usize = 0;
    while r < t.rows.len()
        invariant
            r <= t.rows@.len(),
            rows == table_view(*t).1,
            rows.len() == t.rows@.len(),
            views(texts@) == cell_texts(rows.take(r as int)),
            cols as nat == max_cols(rows.take(r as int)),
            merged == rows_merged(rows.take(r as int)),
        decreases t.rows@.len() - r,
    {
        let row = &t.rows[r];
        let ghost rv = row_view(row@);
        assert(rows[r as int] == rv);
        let ghost base = texts@;
        let ghost merged_before = merged;
        let mut c: usize = 0;
        while c < row.len()
            invariant
                c <= row@.len(),
                rv == row_view(row@),
                rv.len() == row@.len(),
                views(texts@) == views(base) + row_texts(rv.take(c as int)),
                merged == (merged_before || row_merged(rv.take(c as int))),
            decreases row@.len() - c,
        {
            let cell = &row[c];
            let text = node_text_exec(&cell.texts);
            let ghost before = texts@;
            texts.push(text);
            let rs = span_exec(&cell.rowspan);
            let cs = span_exec(&cell.colspan);
            proof {
                assert(rv.take(c + 1).drop_last() =~= rv.take(c as int));
                assert(rv.take(c + 1).last() == cell_view(*cell));
                assert(row_texts(rv.take(c + 1)) =~= row_texts(rv.take(c as int)).push(node_text(cell_view(*cell).0)));
                assert(views(texts@) =~= views(before).push(text@));
            }
            merged = merged || rs > 1 || cs > 1;
            c = c + 1;
        }
        assert(rv.take(c as int) =~= rv);
        proof {
            assert(rows.take(r + 1).drop_last() =~= rows.take(r as int));
            assert(rows.take(r + 1).last() == rv);
        }
        if row.len() > cols {
            cols = row.len();
        }
        r = r + 1;
    }
    assert(rows.take(r as int) =~= rows);
    TableRow {
        text: join_strings(&texts, " | "),
        raw: t.html.clone(),
        rows: t.rows.len(),
        cols,
        merged,
    }
}

fn collect_tables(tables: &Vec<HtmlTable>) -> (r: Vec<TableRow>)
    ensures
        table_rows_view(r@) == kept_tables(tables_view(tables@)),
{
    let ghost ts = tables_view(tables@);
    let mut out: Vec<TableRow> = Vec::new();
    let mut i: usize = 0;
    while i < tables.len()
        invariant
            i <= tables@.len(),
            ts == tables_view(tables@),
            table_rows_view(out@) == kept_tables(ts.take(i as int)),
        decreases tables@.len() - i,
    {
        let row = table_of(&tables[i]);
        proof {
            assert(ts.take(i + 1).drop_last() =~= ts.take(i as int));
            assert(ts.take(i + 1).last() == table_view(tables@[i as int]));
        }
        if row.rows > 0 && row.cols > 0 {
            let ghost before = out@;
            out.push(row);
            assert(table_rows_view(out@) =~= table_rows_view(before).push(table_item(table_view(tables@[i as int]))));
        }
        i = i + 1;
    }
    assert(ts.take(i as int) =~= ts);
    out
}

/// The MathML formulas with text: their text and markup.
pub open spec fn kept_formulas(nodes: Seq<(Seq<Seq<char>>, Seq<char>)>) -> Seq<(Seq<char>, Seq<char>)>
    decreases nodes.len(),
{
    if nodes.len() == 0 {
        Seq::empty()
    } else {
        let prev = kept_formulas(nodes.drop_last());
        let t = node_text(nodes.last().0);
        if t.len() == 0 {
            prev
        } else {
            prev.push((t, nodes.last().1))
        }
    }
}

/// A formula element to be, as the extractor keeps it.
#[derive(Debug)]
pub struct FormulaRow {
    pub text: String,
    pub raw: String,
}

pub open spec fn formula_rows_view(v: Seq<FormulaRow>) -> Seq<(Seq<char>, Seq<char>)> {
    v.map_values(|f: FormulaRow| (f.text@, f.raw@))
}

fn collect_formulas(nodes: &Vec<HtmlNode>) -> (r: Vec<FormulaRow>)
    ensures
        formula_rows_view(r@) == kept_formulas(nodes_view(nodes@)),
{
    let ghost nv = nodes_view(nodes@);
    let mut out: Vec<FormulaRow> = Vec::new();
    let mut j: usize = 0;
    while j < nodes.len()
        invariant
            j <= nodes@.len(),
            nv == nodes_view(nodes@),
            formula_rows_view(out@) == kept_formulas(nv.take(j as int)),
        decreases nodes@.len() - j,
    {
        let t = node_text_exec(&nodes[j].texts);
        proof {
            assert(nv.take(j + 1).drop_last() =~= nv.take(j as int));
            assert(nv.take(j + 1).last() == node_view(nodes@[j as int]));
        }
        if !t.as_str().is_empty() {
            let ghost before = out@;
            out.push(FormulaRow { text: t, raw: nodes[j].html.clone() });
            assert(formula_rows_view(out@) =~= formula_rows_view(before).push((out@.last().text@, out@.last().raw@)));
        }
        j = j + 1;
    }
    assert(nv.take(j as int) =~= nv);
    out
}

/// The place of the `k`-th element (from 0): a band 24 high, 28 below the one before.
pub open spec fn html_box(k: int) -> BBox {
    BBox { x0: 40, y0: (20 + 28 * k) as i64, x1: 1160, y1: (44 + 28 * k) as i64 }
}

/// `e` is the `k`-th element (from 0) of the page: its reading and global order,
/// its box, and what every element of an HTML page has.
pub open spec fn placed(e: Element, k: int) -> bool {
    &&& e.reading_order == Some((k + 1) as u32)
    &&& e.global_order == Some((k + 1) as u32)
    &&& e.bbox == Some(html_box(k))
    &&& e.items@.len() == 0
    &&& !e.exclude_from_chunks
    &&& e.table_linearized@.len() == 0
    &&& e.confidence_permille == 990
}

/// The markdown of a block: `#` marks for a heading, `- ` for a list item, `> `
/// for a quote, a fenced block for code, the text itself otherwise.
pub open spec fn block_markdown(kind: ElementType, level: nat, text: Seq<char>) -> Seq<char> {
    if kind == ElementType::Heading {
        Seq::new(level, |_i: int| '#') + " "@ + text
    } else if kind == ElementType::ListItem {
        "- "@ + text
    } else if kind == ElementType::Blockquote {
        "> "@ + text
    } else if kind == ElementType::Code {
        "```\n"@ + text + "\n```"@
    } else {
        text
    }
}

/// The markdown of a formula: its text between `$$` marks.
pub open spec fn formula_markdown(text: Seq<char>) -> Seq<char> {
    "$$ "@ + text + " $$"@
}

/// `e` is the `k`-th element of the page, made from the block `b`.
pub open spec fn block_element(e: Element, k: int, b: (ElementType, Seq<char>, nat, Seq<char>, Seq<char>)) -> bool {
    &&& placed(e, k)
    &&& e.element_id@ == "p1_e"@ + decimal((k + 1) as nat)
    &&& e.element_type == b.0
    &&& e.tag matches Some(t) && t@ == b.1
    &&& e.role.is_none()
    &&& e.text matches Some(t) && t@ == b.3
    &&& e.markdown matches Some(t) && t@ == block_markdown(b.0, b.2, b.3)
    &&& e.html matches Some(t) && t@ == b.4
    &&& e.normalized_text matches Some(t) && t@ == unicode_lower(b.3)
    &&& e.raw matches Some(t) && t@ == b.4
    &&& e.provenance.method@ == "native"@
    &&& e.provenance.tool@ == "html_dom_parser"@
    &&& e.provenance.stage@ == "html_extraction"@
    &&& e.provenance.source_kind matches Some(t) && t@ == "path"@
    &&& e.provenance.source_value matches Some(t) && t@ == "inline_dom"@
    &&& e.warnings@.len() == 0
    &&& e.extra@.len() == 0
}

/// The warning that a table with merged cells carries.
pub open spec fn merged_table_warning(d: Diagnostic, element_id: Seq<char>) -> bool {
    &&& d.code@ == "COMPLEX_TABLE_MARKDOWN_APPROXIMATION"@
    &&& d.severity@ == "warning"@
    &&& d.scope@ == "element"@
    &&& d.page_number == Some(1u32)
    &&& d.element_id matches Some(t) && t@ == element_id
    &&& d.message@ == "Markdown таблица сформирована приблизительно для сложной структуры."@
    &&& d.recoverable
    &&& d.extra@.len() == 0
}

/// `e` is the `k`-th element of the page, made from the table `t`.
pub open spec fn table_element(e: Element, k: int, t: (Seq<char>, Seq<char>, nat, nat, bool)) -> bool {
    &&& placed(e, k)
    &&& e.element_id@ == "p1_table_"@ + decimal((k + 1) as nat)
    &&& e.element_type == ElementType::Table
    &&& e.tag matches Some(s) && s@ == "table"@
    &&& e.role matches Some(s) && s@ == "data_table"@
    &&& e.text matches Some(s) && s@ == t.0
    &&& e.markdown.is_none()
    &&& e.html.is_none()
    &&& e.normalized_text matches Some(s) && s@ == unicode_lower(t.0)
    &&& e.raw matches Some(s) && s@ == t.1
    &&& e.provenance.method@ == "native"@
    &&& e.provenance.tool@ == "html_dom_parser"@
    &&& e.provenance.stage@ == "html_table_extraction"@
    &&& e.provenance.source_kind.is_none()
    &&& e.provenance.source_value.is_none()
    &&& if t.4 {
        e.warnings@.len() == 1 && merged_table_warning(e.warnings@[0], e.element_id@)
    } else {
        e.warnings@.len() == 0
    }
    &&& e.extra@.len() == 2
    &&& e.extra@[0].0@ == "rows"@ && e.extra@[0].1@ == decimal(t.2)
    &&& e.extra@[1].0@ == "columns"@ && e.extra@[1].1@ == decimal(t.3)
}

/// `e` is the `k`-th element of the page, made from the formula `f`.
pub open spec fn formula_element(e: Element, k: int, f: (Seq<char>, Seq<char>)) -> bool {
    &&& placed(e, k)
    &&& e.element_id@ == "p1_formula_"@ + decimal((k + 1) as nat)
    &&& e.element_type == ElementType::Formula
    &&& e.tag matches Some(s) && s@ == "math"@
    &&& e.role matches Some(s) && s@ == "math_formula"@
    &&& e.text matches Some(s) && s@ == f.0
    &&& e.markdown matches Some(s) && s@ == formula_markdown(f.0)
    &&& e.html matches Some(s) && s@ == f.1
    &&& e.normalized_text matches Some(s) && s@ == f.0
    &&& e.raw matches Some(s) && s@ == f.1
    &&& e.provenance.method@ == "native"@
    &&& e.provenance.tool@ == "html_dom_parser"@
    &&& e.provenance.stage@ == "html_formula_extraction"@
    &&& e.provenance.source_kind.is_none()
    &&& e.provenance.source_value.is_none()
    &&& e.warnings@.len() == 0
    &&& e.extra@.len() == 1
    &&& e.extra@[0].0@ == "format"@ && e.extra@[0].1@ == "mathml"@
}

fn html_box_exec(k: u32) -> (b: BBox)
    ensures
        b == html_box(k as int),
{
    let y: i64 = 20 + 28 * (k as i64);
    BBox { x0: 40, y0: y, x1: 1160, y1: y + 24 }
}

fn numbered(prefix: &str, n: u32) -> (r: String)
    ensures
        r@ == prefix@ + decimal(n as nat),
{
    let mut v: Vec<char> = Vec::new();
    push_str_chars(&mut v, prefix);
    let d = decimal_chars(n as u64);
    push_chars(&mut v, d.as_slice());
    string_from_chars(v.as_slice())
}

fn block_markdown_exec(kind: ElementType, level: usize, text: &str) -> (r: String)
    ensures
        r@ == block_markdown(kind, level as nat, text@),
{
    let mut v: Vec<char> = Vec::new();
    match kind {
        ElementType::Heading => {
            let mut i: usize = 0;
            while i < level
                invariant
                    i <= level,
                    v@ == Seq::new(i as nat, |_i: int| '#'),
                decreases level - i,
            {
                v.push('#');
                i = i + 1;
                assert(v@ =~= Seq::new(i as nat, |_i: int| '#'));
            }
            push_str_chars(&mut v, " ");
            push_str_chars(&mut v, text);
        },
        ElementType::ListItem => {
            push_str_chars(&mut v, "- ");
            push_str_chars(&mut v, text);
        },
        ElementType::Blockquote => {
            push_str_chars(&mut v, "> ");
            push_str_chars(&mut v, text);
        },
        ElementType::Code => {
            push_str_chars(&mut v, "```\n");
            push_str_chars(&mut v, text);
            push_str_chars(&mut v, "\n```");
        },
        _ => {
            push_str_chars(&mut v, text);
        },
    }
    string_from_chars(v.as_slice())
}

fn formula_markdown_exec(text: &str) -> (r: String)
    ensures
        r@ == formula_markdown(text@),
{
    let mut v: Vec<char> = Vec::new();
    push_str_chars(&mut v, "$$ ");
    push_str_chars(&mut v, text);
    push_str_chars(&mut v, " $$");
    string_from_chars(v.as_slice())
}

fn block_element_exec(k: u32, b: &BlockRow) -> (e: Element)
    requires
        k < u32::MAX,
    ensures
        block_element(e, k as int, block_row_view(*b)),
{
    Element {
        element_id: numbered("p1_e", k + 1),
        element_type: b.kind,
        tag: Some(to_owned_string(b.tag)),
        role: None,
        reading_order: Some(k + 1),
        global_order: Some(k + 1),
        bbox: Some(html_box_exec(k)),
        text: Some(b.text.clone()),
        markdown: Some(block_markdown_exec(b.kind, b.level, b.text.as_str())),
        html: Some(b.raw.clone()),
        normalized_text: Some(to_lowercase(b.text.as_str())),
        raw: Some(b.raw.clone()),
        items: Vec::new(),
        exclude_from_chunks: false,
        table_linearized: Vec::new(),
        provenance: provenance("html_dom_parser", "html_extraction", "path", "inline_dom"),
        confidence_permille: default_confidence(),
        warnings: Vec::new(),
        extra: Vec::new(),
    }
}

fn dom_provenance(stage: &str) -> (p: Provenance)
    ensures
        p.method@ == "native"@,
        p.tool@ == "html_dom_parser"@,
        p.stage@ == stage@,
        p.source_kind.is_none(),
        p.source_value.is_none(),
{
    Provenance {
        method: to_owned_string("native"),
        tool: to_owned_string("html_dom_parser"),
        stage: to_owned_string(stage),
        source_kind: None,
        source_value: None,
    }
}

fn table_element_exec(k: u32, t: &TableRow) -> (e: Element)
    requires
        k < u32::MAX,
    ensures
        table_element(e, k as int, (t.text@, t.raw@, t.rows as nat, t.cols as nat, t.merged)),
{
    let id = numbered("p1_table_", k + 1);
    let mut warnings: Vec<Diagnostic> = Vec::new();
    if t.merged {
        warnings.push(Diagnostic {
            code: to_owned_string("COMPLEX_TABLE_MARKDOWN_APPROXIMATION"),
            severity: to_owned_string("warning"),
            scope: to_owned_string("element"),
            page_number: Some(1),
            element_id: Some(id.clone()),
            message: to_owned_string("Markdown таблица сформирована приблизительно для сложной структуры."),
            recoverable: true,
            extra: Vec::new(),
        });
    }
    let mut extra: Vec<(String, String)> = Vec::new();
    extra.push((to_owned_string("rows"), decimal_string(t.rows as u64)));
    extra.push((to_owned_string("columns"), decimal_string(t.cols as u64)));
    Element {
        element_id: id,
        element_type: ElementType::Table,
        tag: Some(to_owned_string("table")),
        role: Some(to_owned_string("data_table")),
        reading_order: Some(k + 1),
        global_order: Some(k + 1),
        bbox: Some(html_box_exec(k)),
        text: Some(t.text.clone()),
        markdown: None,
        html: None,
        normalized_text: Some(to_lowercase(t.text.as_str())),
        raw: Some(t.raw.clone()),
        items: Vec::new(),
        exclude_from_chunks: false,
        table_linearized: Vec::new(),
        provenance: dom_provenance("html_table_extraction"),
        confidence_permille: default_confidence(),
        warnings,
        extra,
    }
}

fn formula_element_exec(k: u32, f: &FormulaRow) -> (e: Element)
    requires
        k < u32::MAX,
    ensures
        formula_element(e, k as int, (f.text@, f.raw@)),
{
    let mut extra: Vec<(String, String)> = Vec::new();
    extra.push((to_owned_string("format"), to_owned_string("mathml")));
    Element {
        element_id: numbered("p1_formula_", k + 1),
        element_type: ElementType::Formula,
        tag: Some(to_owned_string("math")),
        role: Some(to_owned_string("math_formula")),
        reading_order: Some(k + 1),
        global_order: Some(k + 1),
        bbox: Some(html_box_exec(k)),
        text: Some(f.text.clone()),
        markdown: Some(formula_markdown_exec(f.text.as_str())),
        html: Some(f.raw.clone()),
        normalized_text: Some(f.text.clone()),
        raw: Some(f.raw.clone()),
        items: Vec::new(),
        exclude_from_chunks: false,
        table_linearized: Vec::new(),
        provenance: dom_provenance("html_formula_extraction"),
        confidence_permille: default_confidence(),
        warnings: Vec::new(),
        extra,
    }
}

/// The blocks, tables and formulas that become the page's elements, in that order.
pub open spec fn html_blocks(dom: HtmlDom) -> Seq<(ElementType, Seq<char>, nat, Seq<char>, Seq<char>)> {
    block_items(blocks_view(dom.blocks@), 13)
}

pub open spec fn html_tables(dom: HtmlDom) -> Seq<(Seq<char>, Seq<char>, nat, nat, bool)> {
    kept_tables(tables_view(dom.tables@))
}

pub open spec fn html_formulas(dom: HtmlDom) -> Seq<(Seq<char>, Seq<char>)> {
    kept_formulas(nodes_view(dom.formulas@))
}

pub open spec fn html_element_count(dom: HtmlDom) -> nat {
    html_blocks(dom).len() + html_tables(dom).len() + html_formulas(dom).len()
}

/// The texts of the page's elements, in order.
pub open spec fn html_texts(dom: HtmlDom) -> Seq<Seq<char>> {
    html_blocks(dom).map_values(|b: (ElementType, Seq<char>, nat, Seq<char>, Seq<char>)| b.3)
        + html_tables(dom).map_values(|t: (Seq<char>, Seq<char>, nat, nat, bool)| t.0)
        + html_formulas(dom).map_values(|f: (Seq<char>, Seq<char>)| f.0)
}

/// The markdown of the page's elements that have one (tables have none), in order.
pub open spec fn html_markdowns(dom: HtmlDom) -> Seq<Seq<char>> {
    html_blocks(dom).map_values(
        |b: (ElementType, Seq<char>, nat, Seq<char>, Seq<char>)| block_markdown(b.0, b.2, b.3),
    ) + html_formulas(dom).map_values(|f: (Seq<char>, Seq<char>)| formula_markdown(f.0))
}

/// The text of the page: the elements' texts, one per line.
pub open spec fn html_page_text(dom: HtmlDom) -> Seq<char> {
    join(html_texts(dom), "\n"@)
}

/// The orders, boxes and statistics of the page fit their 32-bit fields.
pub open spec fn html_fits(dom: HtmlDom) -> bool {
    &&& html_element_count(dom) < u32::MAX
    &&& html_page_text(dom).len() <= u32::MAX
    &&& crate::extractors::word_count(html_page_text(dom)) <= u32::MAX
}

/// `es` are the elements made from what the queries found: the blocks, then the
/// tables, then the formulas, numbered on from one another.
pub open spec fn html_page_elements(es: Seq<Element>, dom: HtmlDom) -> bool {
    let nb = html_blocks(dom).len() as int;
    let nt = html_tables(dom).len() as int;
    let nf = html_formulas(dom).len() as int;
    &&& es.len() == nb + nt + nf
    &&& forall|k: int| 0 <= k < nb ==> #[trigger] block_element(es[k], k, html_blocks(dom)[k])
    &&& forall|k: int| 0 <= k < nt ==> #[trigger] table_element(es[nb + k], nb + k, html_tables(dom)[k])
    &&& forall|k: int| 0 <= k < nf ==> #[trigger] formula_element(es[nb + nt + k], nb + nt + k, html_formulas(dom)[k])
}

/// `m` is the model of the HTML document `document` whose queries found `dom`.
pub open spec fn html_model(
    m: DocumentModel,
    classification: FileClassification,
    processed_at: Option<String>,
    document: Seq<char>,
    dom: HtmlDom,
) -> bool {
    &&& skeleton_model(m, classification, DocumentFormat::Html, ContentMode::Digital, PageType::DocumentPage, processed_at)
    &&& m.document_profile.has_images == dom.has_images
    &&& m.document_profile.has_tables == dom.has_tables
    &&& m.document_profile.has_formulas == dom.has_formulas
    &&& m.pages@.len() == 1
    &&& m.pages@[0].page_number == 1
    &&& m.pages@[0].page_type == PageType::DocumentPage
    &&& html_page_elements(m.pages@[0].elements@, dom)
    &&& m.pages@[0].text@ == html_page_text(dom)
    &&& m.pages@[0].markdown@ == join(html_markdowns(dom), "\n\n"@)
    &&& m.pages@[0].html@ == document
    &&& m.stats == stats_for(m.pages@)
    &&& m.processing.stages@.len() == 1
    &&& is_stage(m.processing.stages@[0], "html_parse"@, "scraper"@, 1)
    &&& m.processing.total_duration_ms == Some(1u64)
}

proof fn lemma_kept_blocks_carry_selector(
    nodes: Seq<(Seq<Seq<char>>, Seq<char>)>,
    sel: (Seq<char>, ElementType, nat),
)
    ensures
        forall|i: int|
            0 <= i < kept_blocks(nodes, sel).len() ==> (#[trigger] kept_blocks(nodes, sel)[i]).0
                == sel.1 && kept_blocks(nodes, sel)[i].1 == sel.0 && kept_blocks(nodes, sel)[i].2
                == sel.2,
    decreases nodes.len(),
{
    if nodes.len() > 0 {
        lemma_kept_blocks_carry_selector(nodes.drop_last(), sel);
        let prev = kept_blocks(nodes.drop_last(), sel);
        assert forall|i: int| 0 <= i < kept_blocks(nodes, sel).len() implies (#[trigger] kept_blocks(
            nodes,
            sel,
        )[i]).0 == sel.1 && kept_blocks(nodes, sel)[i].1 == sel.0 && kept_blocks(nodes, sel)[i].2
            == sel.2 by {
            if i < prev.len() {
                assert(kept_blocks(nodes, sel)[i] == prev[i]);
            }
        }
    }
}

/// What a block's selector tells of it: `pre` and `code` make code, and a heading
/// comes from a selector `h1` to `h6` whose digit is its level.
spec fn selector_consistent(b: (ElementType, Seq<char>, nat, Seq<char>, Seq<char>)) -> bool {
    &&& (b.1 == "pre"@ || b.1 == "code"@) ==> b.0 == ElementType::Code
    &&& b.0 == ElementType::Heading ==> b.1.len() == 2 && b.1[0] == 'h' && '1' <= b.1[1] && b.1[1]
        <= '6' && b.2 == b.1[1] as int - '0' as int
}

proof fn lemma_selectors_consistent()
    ensures
        forall|j: int|
            0 <= j < 13 ==> selector_consistent(
                (
                    #[trigger] block_selectors()[j].1,
                    block_selectors()[j].0,
                    block_selectors()[j].2,
                    Seq::empty(),
                    Seq::empty(),
                ),
            ),
{
    reveal_strlit("h1");
    reveal_strlit("h2");
    reveal_strlit("h3");
    reveal_strlit("h4");
    reveal_strlit("h5");
    reveal_strlit("h6");
    reveal_strlit("p");
    reveal_strlit("blockquote");
    reveal_strlit("pre");
    reveal_strlit("code");
    reveal_strlit("ul");
    reveal_strlit("ol");
    reveal_strlit("li");
    assert forall|j: int| 0 <= j < 13 implies selector_consistent(
        (
            #[trigger] block_selectors()[j].1,
            block_selectors()[j].0,
            block_selectors()[j].2,
            Seq::empty(),
            Seq::empty(),
        ),
    ) by {
        let s = block_selectors()[j].0;
        assert(s.len() == 3 ==> s == "pre"@);
        if j == 0 || j == 1 || j == 2 || j == 3 || j == 4 || j == 5 || j == 10 || j == 11 || j
            == 12 {
            assert(s.len() == 2);
        } else if j == 6 {
            assert(s.len() == 1);
        } else if j == 7 {
            assert(s.len() == 10);
        }
    }
}

proof fn lemma_blocks_follow_selectors(lists: Seq<Seq<(Seq<Seq<char>>, Seq<char>)>>, n: nat)
    requires
        n <= 13,
    ensures
        forall|i: int|
            0 <= i < block_items(lists, n).len() ==> selector_consistent(
                #[trigger] block_items(lists, n)[i],
            ),
    decreases n,
{
    if n > 0 {
        lemma_blocks_follow_selectors(lists, (n - 1) as nat);
        let prev = block_items(lists, (n - 1) as nat);
        let sel = block_selectors()[n - 1];
        let kb = kept_blocks(lists[n - 1], sel);
        lemma_kept_blocks_carry_selector(lists[n - 1], sel);
        lemma_selectors_consistent();
        assert(block_items(lists, n) == prev + kb);
        assert(selector_consistent((sel.1, sel.0, sel.2, Seq::empty(), Seq::empty())));
        assert forall|i: int| 0 <= i < block_items(lists, n).len() implies selector_consistent(
            #[trigger] block_items(lists, n)[i],
        ) by {
            if i >= prev.len() {
                assert(block_items(lists, n)[i] == kb[i - prev.len()]);
                assert(kb[i - prev.len()].1 == sel.0);
                assert(kb[i - prev.len()].0 == sel.1);
                assert(kb[i - prev.len()].2 == sel.2);
            } else {
                assert(block_items(lists, n)[i] == prev[i]);
            }
        }
    }
}

/// On the page of an HTML document, every element made from a `<pre>` or a
/// `<code>` node is a code element, and every code element's markdown is its
/// text in a fenced block: three backticks and a line break before it, a line
/// break and three backticks after it.
pub proof fn law_code_blocks_are_fenced(es: Seq<Element>, dom: HtmlDom)
    requires
        html_page_elements(es, dom),
    ensures
        forall|i: int|
            0 <= i < html_blocks(dom).len() && #[trigger] es[i].tag.is_some() && (
            es[i].tag.unwrap()@ == "pre"@ || es[i].tag.unwrap()@ == "code"@)
                ==> es[i].element_type == ElementType::Code,
        forall|i: int|
            0 <= i < es.len() && #[trigger] es[i].element_type == ElementType::Code
                ==> es[i].text.is_some() && es[i].markdown.is_some() && es[i].markdown.unwrap()@
                == "```\n"@ + es[i].text.unwrap()@ + "\n```"@,
{
    let nb = html_blocks(dom).len() as int;
    let nt = html_tables(dom).len() as int;
    lemma_blocks_follow_selectors(blocks_view(dom.blocks@), 13);
    assert forall|i: int|
        0 <= i < html_blocks(dom).len() && #[trigger] es[i].tag.is_some() && (
        es[i].tag.unwrap()@ == "pre"@ || es[i].tag.unwrap()@ == "code"@)
            implies es[i].element_type == ElementType::Code by {
        assert(block_element(es[i], i, html_blocks(dom)[i]));
        assert(selector_consistent(html_blocks(dom)[i]));
    }
    assert forall|i: int|
        0 <= i < es.len() && #[trigger] es[i].element_type == ElementType::Code
            implies es[i].text.is_some() && es[i].markdown.is_some() && es[i].markdown.unwrap()@
            == "```\n"@ + es[i].text.unwrap()@ + "\n```"@ by {
        if i < nb {
            assert(block_element(es[i], i, html_blocks(dom)[i]));
        } else if i < nb + nt {
            assert(table_element(es[nb + (i - nb)], nb + (i - nb), html_tables(dom)[i - nb]));
        } else {
            assert(formula_element(
                es[nb + nt + (i - nb - nt)],
                nb + nt + (i - nb - nt),
                html_formulas(dom)[i - nb - nt],
            ));
        }
    }
}

/// On the page of an HTML document, the markdown of each block element follows
/// its kind: a heading made from `h1` to `h6` is as many `#` as the tag's digit,
/// a space and its text; a list item is `- ` and its text; a quote is `> ` and its
/// text; a paragraph or a list is its text alone.
pub proof fn law_block_markdown_follows_kind(es: Seq<Element>, dom: HtmlDom)
    requires
        html_page_elements(es, dom),
    ensures
        forall|i: int|
            0 <= i < html_blocks(dom).len() ==> (#[trigger] es[i]).text.is_some()
                && es[i].markdown.is_some() && es[i].tag.is_some() && ({
                let text = es[i].text.unwrap()@;
                let md = es[i].markdown.unwrap()@;
                let tag = es[i].tag.unwrap()@;
                &&& es[i].element_type == ElementType::Heading ==> tag.len() == 2 && tag[0] == 'h'
                    && '1' <= tag[1] && tag[1] <= '6' && md == Seq::new(
                    (tag[1] as int - '0' as int) as nat,
                    |_k: int| '#',
                ) + " "@ + text
                &&& es[i].element_type == ElementType::ListItem ==> md == "- "@ + text
                &&& es[i].element_type == ElementType::Blockquote ==> md == "> "@ + text
                &&& es[i].element_type == ElementType::Paragraph || es[i].element_type
                    == ElementType::List ==> md == text
            }),
{
    lemma_blocks_follow_selectors(blocks_view(dom.blocks@), 13);
    assert forall|i: int| 0 <= i < html_blocks(dom).len() implies (#[trigger] es[i]).text.is_some()
        && es[i].markdown.is_some() && es[i].tag.is_some() && ({
        let text = es[i].text.unwrap()@;
        let md = es[i].markdown.unwrap()@;
        let tag = es[i].tag.unwrap()@;
        &&& es[i].element_type == ElementType::Heading ==> tag.len() == 2 && tag[0] == 'h' && '1'
            <= tag[1] && tag[1] <= '6' && md == Seq::new(
            (tag[1] as int - '0' as int) as nat,
            |_k: int| '#',
        ) + " "@ + text
        &&& es[i].element_type == ElementType::ListItem ==> md == "- "@ + text
        &&& es[i].element_type == ElementType::Blockquote ==> md == "> "@ + text
        &&& es[i].element_type == ElementType::Paragraph || es[i].element_type == ElementType::List
            ==> md == text
    }) by {
        assert(block_element(es[i], i, html_blocks(dom)[i]));
        assert(selector_consistent(html_blocks(dom)[i]));
    }
}

proof fn lemma_count_single_page(pages: Seq<Page>)
    requires
        pages.len() == 1,
    ensures
        count_pages(pages).elements == pages[0].elements@.len(),
        count_pages(pages).chars == pages[0].text@.len(),
        count_pages(pages).words == crate::extractors::word_count(pages[0].text@),
{
    assert(pages.drop_last() =~= Seq::<Page>::empty());
    assert(count_pages(pages.drop_last()) == zero_count());
    let c = zero_count();
    let p = pages.last();
    assert(p == pages[0]);
    lemma_count_elements_grows(
        StatsCount { chars: c.chars + p.text@.len(), words: c.words + crate::extractors::word_count(p.text@), ..c },
        p.elements@,
    );
}

/// The model of an HTML document from what the DOM queries found in it: one page
/// whose elements are the blocks with text (headings, paragraphs, quotes, code,
/// lists and list items, selector by selector), then the tables with cells, then
/// the MathML formulas with text; the page's text and markdown joined from theirs,
/// its markup the document itself.
#[verifier::rlimit(40)]
pub fn build_html_document(
    classification: &FileClassification,
    document: &str,
    dom: &HtmlDom,
    processed_at: Option<String>,
) -> (m: DocumentModel)
    requires
        dom.blocks@.len() == 13,
        classification.input_path@.len() < 0x7fff_ffff_ffff_ffff,
        html_fits(*dom),
    ensures
        html_model(m, *classification, processed_at, document@, *dom),
{
    let blocks = collect_blocks(&dom.blocks);
    let tables = collect_tables(&dom.tables);
    let formulas = collect_formulas(&dom.formulas);
    let ghost bs = html_blocks(*dom);
    let ghost ts = html_tables(*dom);
    let ghost fs = html_formulas(*dom);
    let nb = blocks.len();
    let nt = tables.len();
    let nf = formulas.len();
    assert(block_rows_view(blocks@).len() == nb);
    assert(table_rows_view(tables@).len() == nt);
    assert(formula_rows_view(formulas@).len() == nf);
    let mut elements: Vec<Element> = Vec::new();
    let mut texts: Vec<String> = Vec::new();
    let mut mds: Vec<String> = Vec::new();
    let mut i: usize = 0;
    while i < nb
        invariant
            i <= nb,
            nb == blocks@.len(),
            nb + nt + nf < u32::MAX,
            block_rows_view(blocks@) == bs,
            elements@.len() == i,
            forall|k: int| 0 <= k < i ==> #[trigger] block_element(elements@[k], k, bs[k]),
            views(texts@) == bs.take(i as int).map_values(|b: (ElementType, Seq<char>, nat, Seq<char>, Seq<char>)| b.3),
            views(mds@) == bs.take(i as int).map_values(
                |b: (ElementType, Seq<char>, nat, Seq<char>, Seq<char>)| block_markdown(b.0, b.2, b.3),
            ),
        decreases nb - i,
    {
        let b = &blocks[i];
        assert(block_row_view(*b) == bs[i as int]);
        let ghost (e0, t0, m0) = (elements@, texts@, mds@);
        elements.push(block_element_exec(i as u32, b));
        texts.push(b.text.clone());
        mds.push(block_markdown_exec(b.kind, b.level, b.text.as_str()));
        proof {
            assert forall|k: int| 0 <= k < i + 1 implies #[trigger] block_element(elements@[k], k, bs[k]) by {
                if k < i {
                    assert(elements@[k] == e0[k]);
                }
            }
            assert(views(texts@) =~= views(t0).push(bs[i as int].3));
            assert(bs.take(i + 1) =~= bs.take(i as int).push(bs[i as int]));
            assert(views(mds@) =~= views(m0).push(block_markdown(bs[i as int].0, bs[i as int].2, bs[i as int].3)));
        }
        i = i + 1;
    }
    assert(bs.take(nb as int) =~= bs);
    let ghost block_texts = views(texts@);
    let mut i: usize = 0;
    while i < nt
        invariant
            i <= nt,
            nb == blocks@.len(),
            nt == tables@.len(),
            nb + nt + nf < u32::MAX,
            table_rows_view(tables@) == ts,
            elements@.len() == nb + i,
            forall|k: int| 0 <= k < nb ==> #[trigger] block_element(elements@[k], k, bs[k]),
            forall|k: int| 0 <= k < i ==> #[trigger] table_element(elements@[nb + k], nb + k, ts[k]),
            views(texts@) == block_texts + ts.take(i as int).map_values(|t: (Seq<char>, Seq<char>, nat, nat, bool)| t.0),
        decreases nt - i,
    {
        let t = &tables[i];
        assert((t.text@, t.raw@, t.rows as nat, t.cols as nat, t.merged) == ts[i as int]);
        let ghost (e0, t0) = (elements@, texts@);
        elements.push(table_element_exec((nb + i) as u32, t));
        texts.push(t.text.clone());
        proof {
            assert forall|k: int| 0 <= k < nb implies #[trigger] block_element(elements@[k], k, bs[k]) by {
                assert(elements@[k] == e0[k]);
            }
            assert forall|k: int| 0 <= k < i + 1 implies #[trigger] table_element(elements@[nb + k], nb + k, ts[k]) by {
                if k < i {
                    assert(elements@[nb + k] == e0[nb + k]);
                }
            }
            assert(ts.take(i + 1) =~= ts.take(i as int).push(ts[i as int]));
            assert(views(texts@) =~= views(t0).push(ts[i as int].0));
        }
        i = i + 1;
    }
    assert(ts.take(nt as int) =~= ts);
    let ghost block_table_texts = views(texts@);
    let ghost block_mds = views(mds@);
    let mut i: usize = 0;
    while i < nf
        invariant
            i <= nf,
            nb == blocks@.len(),
            nt == tables@.len(),
            nf == formulas@.len(),
            nb + nt + nf < u32::MAX,
            formula_rows_view(formulas@) == fs,
            elements@.len() == nb + nt + i,
            forall|k: int| 0 <= k < nb ==> #[trigger] block_element(elements@[k], k, bs[k]),
            forall|k: int| 0 <= k < nt ==> #[trigger] table_element(elements@[nb + k], nb + k, ts[k]),
            forall|k: int| 0 <= k < i ==> #[trigger] formula_element(elements@[nb + nt + k], nb + nt + k, fs[k]),
            views(texts@) == block_table_texts + fs.take(i as int).map_values(|f: (Seq<char>, Seq<char>)| f.0),
            views(mds@) == block_mds + fs.take(i as int).map_values(|f: (Seq<char>, Seq<char>)| formula_markdown(f.0)),
        decreases nf - i,
    {
        let f = &formulas[i];
        assert((f.text@, f.raw@) == fs[i as int]);
        let ghost (e0, t0, m0) = (elements@, texts@, mds@);
        elements.push(formula_element_exec((nb + nt + i) as u32, f));
        texts.push(f.text.clone());
        mds.push(formula_markdown_exec(f.text.as_str()));
        proof {
            assert forall|k: int| 0 <= k < nb implies #[trigger] block_element(elements@[k], k, bs[k]) by {
                assert(elements@[k] == e0[k]);
            }
            assert forall|k: int| 0 <= k < nt implies #[trigger] table_element(elements@[nb + k], nb + k, ts[k]) by {
                assert(elements@[nb + k] == e0[nb + k]);
            }
            assert forall|k: int| 0 <= k < i + 1 implies #[trigger] formula_element(elements@[nb + nt + k], nb + nt + k, fs[k]) by {
                if k < i {
                    assert(elements@[nb + nt + k] == e0[nb + nt + k]);
                }
            }
            assert(fs.take(i + 1) =~= fs.take(i as int).push(fs[i as int]));
            assert(views(texts@) =~= views(t0).push(fs[i as int].0));
            assert(views(mds@) =~= views(m0).push(formula_markdown(fs[i as int].0)));
        }
        i = i + 1;
    }
    assert(fs.take(nf as int) =~= fs);
    assert(views(texts@) =~= html_texts(*dom));
    assert(views(mds@) =~= html_markdowns(*dom));
    assert(html_page_elements(elements@, *dom));
    let page_text = join_strings(&texts, "\n");
    let page_markdown = join_strings(&mds, "\n\n");
    let mut m = base_document_model(
        classification,
        DocumentFormat::Html,
        ContentMode::Digital,
        PageType::DocumentPage,
        processed_at,
    );
    let mut pages: Vec<Page> = Vec::new();
    std::mem::swap(&mut pages, &mut m.pages);
    let mut page = pages.remove(0);
    page.elements = elements;
    page.text = page_text;
    page.markdown = page_markdown;
    page.html = to_owned_string(document);
    pages.insert(0, page);
    m.pages = pages;
    m.document_profile.has_images = dom.has_images;
    m.document_profile.has_tables = dom.has_tables;
    m.document_profile.has_formulas = dom.has_formulas;
    proof {
        lemma_count_single_page(m.pages@);
    }
    update_stats(&mut m);
    m.processing.stages.push(stage("html_parse", "scraper", 1));
    m.processing.total_duration_ms = Some(1);
    m
}

/// Why an HTML document could not be read.
#[derive(Clone, Copy, Debug, PartialEq, Eq, Structural)]
pub enum HtmlExtractionError {
    /// A block selector did not parse.
    InvalidSelector,
    /// The page would hold more elements, characters or words than its 32-bit
    /// counters can count.
    TooLarge,
}

/// Whether the page made from what the queries found fits its counters.
fn fits_exec(dom: &HtmlDom) -> (r: bool)
    requires
        dom.blocks@.len() == 13,
    ensures
        r == html_fits(*dom),
{
    let blocks = collect_blocks(&dom.blocks);
    let tables = collect_tables(&dom.tables);
    let formulas = collect_formulas(&dom.formulas);
    assert(block_rows_view(blocks@).len() == blocks@.len());
    assert(table_rows_view(tables@).len() == tables@.len());
    assert(formula_rows_view(formulas@).len() == formulas@.len());
    let nb = blocks.len() as u64;
    let nt = tables.len() as u64;
    let nf = formulas.len() as u64;
    if nb >= 0xffff_ffff || nt >= 0xffff_ffff || nf >= 0xffff_ffff || nb + nt + nf >= 0xffff_ffff {
        return false;
    }
    let mut texts: Vec<String> = Vec::new();
    let mut i: usize = 0;
    while i < blocks.len()
        invariant
            i <= blocks@.len(),
            views(texts@) == block_rows_view(blocks@).take(i as int).map_values(
                |b: (ElementType, Seq<char>, nat, Seq<char>, Seq<char>)| b.3,
            ),
        decreases blocks@.len() - i,
    {
        let ghost t0 = texts@;
        texts.push(blocks[i].text.clone());
        assert(block_rows_view(blocks@).take(i + 1) =~= block_rows_view(blocks@).take(i as int).push(block_row_view(blocks@[i as int])));
        assert(views(texts@) =~= views(t0).push(blocks@[i as int].text@));
        i = i + 1;
    }
    assert(block_rows_view(blocks@).take(i as int) =~= block_rows_view(blocks@));
    let ghost bt = views(texts@);
    let mut i: usize = 0;
    while i < tables.len()
        invariant
            i <= tables@.len(),
            views(texts@) == bt + table_rows_view(tables@).take(i as int).map_values(|t: (Seq<char>, Seq<char>, nat, nat, bool)| t.0),
        decreases tables@.len() - i,
    {
        let ghost t0 = texts@;
        texts.push(tables[i].text.clone());
        assert(table_rows_view(tables@).take(i + 1) =~= table_rows_view(tables@).take(i as int).push(table_rows_view(tables@)[i as int]));
        assert(views(texts@) =~= views(t0).push(tables@[i as int].text@));
        i = i + 1;
    }
    assert(table_rows_view(tables@).take(i as int) =~= table_rows_view(tables@));
    let ghost btt = views(texts@);
    let mut i: usize = 0;
    while i < formulas.len()
        invariant
            i <= formulas@.len(),
            views(texts@) == btt + formula_rows_view(formulas@).take(i as int).map_values(|f: (Seq<char>, Seq<char>)| f.0),
        decreases formulas@.len() - i,
    {
        let ghost t0 = texts@;
        texts.push(formulas[i].text.clone());
        assert(formula_rows_view(formulas@).take(i + 1) =~= formula_rows_view(formulas@).take(i as int).push(formula_rows_view(formulas@)[i as int]));
        assert(views(texts@) =~= views(t0).push(formulas@[i as int].text@));
        i = i + 1;
    }
    assert(formula_rows_view(formulas@).take(i as int) =~= formula_rows_view(formulas@));
    assert(views(texts@) =~= html_texts(*dom));
    let text = join_strings(&texts, "\n");
    let chars = crate::text::chars_of(text.as_str());
    if chars.len() as u64 > 0xffff_ffff {
        return false;
    }
    let words = crate::extractors::count_words(text.as_str());
    words as u64 <= 0xffff_ffff
}

/// The model of an HTML document: its DOM queried, then the model built from what
/// was found ([`build_html_document`]). It fails where a block selector does not
/// parse, and where the page would not fit its counters.
pub fn extract_html_document(
    classification: &FileClassification,
    document: &str,
    processed_at: Option<String>,
) -> (r: Result<DocumentModel, HtmlExtractionError>)
    requires
        classification.input_path@.len() < 0x7fff_ffff_ffff_ffff,
    ensures
        match r {
            Ok(m) => exists|dom: HtmlDom|
                dom_of(dom, document@) && html_fits(dom) && html_model(m, *classification, processed_at, document@, dom),
            Err(HtmlExtractionError::InvalidSelector) => !block_selectors_parse(document@),
            Err(HtmlExtractionError::TooLarge) => block_selectors_parse(document@) && exists|dom: HtmlDom|
                dom_of(dom, document@) && !html_fits(dom),
        },
{
    let dom = match query_html(document) {
        Some(d) => d,
        None => return Err(HtmlExtractionError::InvalidSelector),
    };
    proof {
        assert forall|k: int| 0 <= k < 13 implies (#[trigger] html_select(document@, block_selectors()[k].0)).is_some() by {
            assert(html_select(document@, block_selectors()[k].0) == Some(nodes_view(dom.blocks@[k]@)));
        }
    }
    if !fits_exec(&dom) {
        return Err(HtmlExtractionError::TooLarge);
    }
    let m = build_html_document(classification, document, &dom, processed_at);
    Ok(m)
}

} // verus!
