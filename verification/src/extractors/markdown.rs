//! Markdown: blocks read line by line (headings, list items, quotes, paragraphs,
//! fenced code) and display formulas (`$$ ... $$`, `\[ ... \]`).

use vstd::prelude::*;
use crate::chunking::utf8_len;
use crate::classifier::FileClassification;
use crate::extractors::txt::{lines_of, text_lines, DetectedTable};
use crate::extractors::{
    base_document_model, provenance, skeleton_model, stage, stats_fit, stats_fit_spec, stats_for,
    update_stats,
};
use crate::model::{BBox, ContentMode, DocumentFormat, DocumentModel, Element, ElementType, Page, PageType};
use crate::text::{
    chars_of, decimal, decimal_string, ends_with, join, push_chars, push_str_chars, seq_contains,
    starts_with, string_from_chars, str_contains, to_owned_string, trim, trim_chars, trim_end,
    trim_end_chars, views,
};
use crate::unicode::{to_lowercase, unicode_lower};

verus! {

/// The extractor of Markdown files.
pub struct MarkdownExtractor;

impl MarkdownExtractor {
    pub fn name(&self) -> (s: &'static str)
        ensures
            s@ == "markdown_extractor"@,
    {
        "markdown_extractor"
    }
}

/// What `pulldown-cmark` renders a markdown text to.
pub uninterp spec fn commonmark_html(markdown: Seq<char>) -> Seq<char>;

/// Renders markdown to HTML with `pulldown-cmark`: `Parser::new_ext` with every
/// extension switched on, written out by `html::push_html`. The contract only
/// names the result.
#[verifier::external_body]
fn render_markdown_html(markdown: &str) -> (r: String)
    ensures
        r@ == commonmark_html(markdown@),
{
    let mut out = String::new();
    pulldown_cmark::html::push_html(
        &mut out,
        pulldown_cmark::Parser::new_ext(markdown, pulldown_cmark::Options::all()),
    );
    out
}

/// One block of a markdown text.
pub struct MdBlock {
    pub kind: ElementType,
    pub tag: Seq<char>,
    pub text: Seq<char>,
    pub markdown: Seq<char>,
    pub raw: Seq<char>,
}

pub struct MdState {
    pub in_code: bool,
    pub code: Seq<Seq<char>>,
    pub blocks: Seq<MdBlock>,
}

/// The text without the leading characters `c`.
pub open spec fn strip_leading(t: Seq<char>, c: char) -> Seq<char>
    decreases t.len(),
{
    if t.len() > 0 && t[0] == c {
        strip_leading(t.drop_first(), c)
    } else {
        t
    }
}

pub open spec fn block(kind: ElementType, tag: Seq<char>, text: Seq<char>, line: Seq<char>) -> MdBlock {
    MdBlock { kind, tag, text, markdown: line, raw: line }
}

/// The state after one more line.
pub open spec fn md_step(st: MdState, line: Seq<char>) -> MdState {
    let t = trim_end(line);
    if starts_with(t, "```"@) {
        if st.in_code {
            let c = join(st.code, "\n"@);
            MdState {
                in_code: false,
                code: Seq::empty(),
                blocks: st.blocks.push(
                    MdBlock {
                        kind: ElementType::Code,
                        tag: "code"@,
                        text: c,
                        markdown: "```\n"@ + c + "\n```"@,
                        raw: c,
                    },
                ),
            }
        } else {
            MdState { in_code: true, ..st }
        }
    } else if st.in_code {
        MdState { code: st.code.push(t), ..st }
    } else if t.len() == 0 {
        st
    } else if starts_with(t, "#"@) {
        MdState {
            blocks: st.blocks.push(block(ElementType::Heading, "h"@, trim(strip_leading(t, '#')), t)),
            ..st
        }
    } else if starts_with(t, "- "@) || starts_with(t, "* "@) {
        MdState { blocks: st.blocks.push(block(ElementType::ListItem, "li"@, trim(t.skip(2)), t)), ..st }
    } else if starts_with(t, ">"@) {
        MdState {
            blocks: st.blocks.push(
                block(ElementType::Blockquote, "blockquote"@, trim(strip_leading(t, '>')), t),
            ),
            ..st
        }
    } else {
        MdState { blocks: st.blocks.push(block(ElementType::Paragraph, "p"@, t, t)), ..st }
    }
}

pub open spec fn md_fold(lines: Seq<Seq<char>>) -> MdState
    decreases lines.len(),
{
    if lines.len() == 0 {
        MdState { in_code: false, code: Seq::empty(), blocks: Seq::empty() }
    } else {
        md_step(md_fold(lines.drop_last()), lines.last())
    }
}

/// The blocks of a markdown text, in order (an unclosed code fence yields nothing).
pub open spec fn md_blocks(markdown: Seq<char>) -> Seq<MdBlock> {
    md_fold(text_lines(markdown)).blocks
}

/// The text without leading copies of `p`.
pub open spec fn strip_prefix_all(s: Seq<char>, p: Seq<char>) -> Seq<char>
    decreases s.len(),
{
    if p.len() > 0 && starts_with(s, p) {
        strip_prefix_all(s.skip(p.len() as int), p)
    } else {
        s
    }
}

/// The text without trailing copies of `p`.
pub open spec fn strip_suffix_all(s: Seq<char>, p: Seq<char>) -> Seq<char>
    decreases s.len(),
{
    if p.len() > 0 && ends_with(s, p) {
        strip_suffix_all(s.take(s.len() - p.len()), p)
    } else {
        s
    }
}

pub struct FormulaState {
    pub in_block: bool,
    pub lines: Seq<Seq<char>>,
    pub found: Seq<Seq<char>>,
}

/// The formula state after one more line.
pub open spec fn formula_step(st: FormulaState, line: Seq<char>) -> FormulaState {
    let t = trim(line);
    if starts_with(t, "$$"@) {
        if st.in_block {
            let text = trim(join(st.lines, "\n"@));
            FormulaState {
                in_block: false,
                lines: Seq::empty(),
                found: if text.len() > 0 {
                    st.found.push(text)
                } else {
                    st.found
                },
            }
        } else {
            let tail = trim(strip_suffix_all(trim(strip_prefix_all(t, "$$"@)), "$$"@));
            if tail.len() > 0 && ends_with(t, "$$"@) && utf8_len(t) > 4 {
                FormulaState { found: st.found.push(tail), ..st }
            } else {
                FormulaState { in_block: true, lines: Seq::empty(), ..st }
            }
        }
    } else if st.in_block {
        FormulaState { lines: st.lines.push(t), ..st }
    } else if starts_with(t, "\\["@) && ends_with(t, "\\]"@) && utf8_len(t) >= 4 {
        let text = trim(strip_suffix_all(strip_prefix_all(t, "\\["@), "\\]"@));
        if text.len() > 0 {
            FormulaState { found: st.found.push(text), ..st }
        } else {
            st
        }
    } else {
        st
    }
}

pub open spec fn formula_fold(lines: Seq<Seq<char>>) -> FormulaState
    decreases lines.len(),
{
    if lines.len() == 0 {
        FormulaState { in_block: false, lines: Seq::empty(), found: Seq::empty() }
    } else {
        formula_step(formula_fold(lines.drop_last()), lines.last())
    }
}

/// The display formulas of a markdown text, in order.
pub open spec fn md_formulas(markdown: Seq<char>) -> Seq<Seq<char>> {
    formula_fold(text_lines(markdown)).found
}

/// `e` is the element at position `k` (from 0) made of `b`.
pub open spec fn md_element(e: Element, k: int, b: MdBlock) -> bool {
    let y = 20 + 28 * k;
    &&& e.element_id@ == "p1_e"@ + decimal((k + 1) as nat)
    &&& e.element_type == b.kind
    &&& e.tag.is_some() && e.tag.unwrap()@ == b.tag
    &&& e.reading_order == Some((k + 1) as u32)
    &&& e.global_order == Some((k + 1) as u32)
    &&& e.bbox == Some(BBox { x0: 40, y0: y as i64, x1: 1160, y1: (y + 24) as i64 })
    &&& e.text.is_some() && e.text.unwrap()@ == b.text
    &&& e.html.is_none()
    &&& e.markdown.is_some() && e.markdown.unwrap()@ == b.markdown
    &&& e.normalized_text.is_some() && e.normalized_text.unwrap()@ == unicode_lower(b.text)
    &&& e.raw.is_some() && e.raw.unwrap()@ == b.raw
    &&& e.provenance.tool@ == "markdown_parser"@
    &&& e.provenance.stage@ == "markdown_native_extraction"@
    &&& e.confidence_permille == 990
    &&& e.warnings@.len() == 0
}

/// The formula `latex` as the block it becomes.
pub open spec fn formula_block(latex: Seq<char>) -> MdBlock {
    MdBlock {
        kind: ElementType::Formula,
        tag: "formula"@,
        text: latex,
        markdown: "$$\n"@ + latex + "\n$$"@,
        raw: latex,
    }
}

/// The elements of a markdown page: its blocks, then its formulas.
/// The text of a detected table: its cell texts joined by ` | `.
pub open spec fn table_text(t: DetectedTable) -> Seq<char> {
    join(views(t.cell_texts@), " | "@)
}

/// `e` is the detected pipe table `t` placed after the `k` blocks: numbered and
/// placed as the next block would be, with the table's renderings, its size, CSV
/// and detection method.
pub open spec fn md_table_element(e: Element, k: int, t: DetectedTable) -> bool {
    let y = 20 + 28 * k;
    let text = table_text(t);
    &&& e.element_id@ == "p1_e"@ + decimal((k + 1) as nat)
    &&& e.element_type == ElementType::Table
    &&& e.tag.is_some() && e.tag.unwrap()@ == "table"@
    &&& e.role.is_some() && e.role.unwrap()@ == "data_table"@
    &&& e.reading_order == Some((k + 1) as u32)
    &&& e.global_order == Some((k + 1) as u32)
    &&& e.bbox == Some(BBox { x0: 40, y0: y as i64, x1: 1160, y1: (y + 24) as i64 })
    &&& e.text.is_some() && e.text.unwrap()@ == text
    &&& e.html.is_some() && e.html.unwrap()@ == t.html@
    &&& e.markdown.is_some() && e.markdown.unwrap()@ == t.markdown@
    &&& e.normalized_text.is_some() && e.normalized_text.unwrap()@ == unicode_lower(text)
    &&& e.raw.is_some() && e.raw.unwrap()@ == t.markdown@
    &&& e.provenance.tool@ == "markdown_parser"@
    &&& e.provenance.stage@ == "markdown_native_extraction"@
    &&& e.confidence_permille == 990
    &&& e.warnings@.len() == 0
    &&& e.extra@.len() == 4
    &&& e.extra@[0].0@ == "rows"@ && e.extra@[0].1@ == decimal(t.rows as nat)
    &&& e.extra@[1].0@ == "columns"@ && e.extra@[1].1@ == decimal(t.columns as nat)
    &&& e.extra@[2].0@ == "csv"@ && e.extra@[2].1@ == t.csv@
    &&& e.extra@[3].0@ == "extraction_method"@ && e.extra@[3].1@ == "markdown_pipe"@
}

pub open spec fn table_count(table: Option<DetectedTable>) -> nat {
    if table.is_some() {
        1
    } else {
        0
    }
}

/// The elements of a markdown document: one per block, then the detected pipe
/// table, then one per formula, the formulas numbered on from the blocks.
pub open spec fn md_elements_ok(es: Seq<Element>, markdown: Seq<char>, table: Option<DetectedTable>) -> bool {
    let bs = md_blocks(markdown);
    let fs = md_formulas(markdown);
    let t = table_count(table);
    &&& es.len() == bs.len() + t + fs.len()
    &&& forall|k: int| 0 <= k < bs.len() ==> #[trigger] md_element(es[k], k, bs[k]) && es[k].role.is_none()
        && es[k].extra@.len() == 0
    &&& table matches Some(tb) ==> md_table_element(es[bs.len() as int], bs.len() as int, tb)
    &&& forall|k: int|
        #![trigger es[k]]
        bs.len() + t <= k < es.len() ==> {
            &&& md_element(es[k], k - t, formula_block(fs[k - bs.len() - t]))
            &&& es[k].role.is_some() && es[k].role.unwrap()@ == "math_formula"@
            &&& es[k].extra@.len() == 2
            &&& es[k].extra@[0].0@ == "format"@ && es[k].extra@[0].1@ == "latex"@
            &&& es[k].extra@[1].0@ == "latex_source"@ && es[k].extra@[1].1@ == fs[k - bs.len() - t]
        }
}

/// The texts of the elements, in order.
pub open spec fn md_texts(markdown: Seq<char>, table: Option<DetectedTable>) -> Seq<Seq<char>> {
    let tt: Seq<Seq<char>> = match table {
        Some(tb) => seq![table_text(tb)],
        None => Seq::empty(),
    };
    md_blocks(markdown).map_values(|b: MdBlock| b.text) + tt + md_formulas(markdown)
}

struct BlockExec {
    kind: ElementType,
    tag: &'static str,
    text: Vec<char>,
    markdown: Vec<char>,
    raw: Vec<char>,
}

spec fn block_view(b: BlockExec) -> MdBlock {
    MdBlock { kind: b.kind, tag: b.tag@, text: b.text@, markdown: b.markdown@, raw: b.raw@ }
}

spec fn blocks_view(v: Seq<BlockExec>) -> Seq<MdBlock> {
    v.map_values(|b: BlockExec| block_view(b))
}

fn strip_leading_chars(t: &[char], c: char) -> (r: Vec<char>)
    ensures
        r@ == strip_leading(t@, c),
{
    let mut i: usize = 0;
    assert(t@.skip(0) =~= t@);
    while i < t.len() && t[i] == c
        invariant
            i <= t@.len(),
            strip_leading(t@, c) == strip_leading(t@.skip(i as int), c),
        decreases t@.len() - i,
    {
        proof {
            assert(t@.skip(i as int).drop_first() =~= t@.skip(i + 1));
            assert(t@.skip(i as int)[0] == t@[i as int]);
        }
        i = i + 1;
    }
    let mut out: Vec<char> = Vec::new();
    let mut j: usize = i;
    while j < t.len()
        invariant
            i <= j <= t@.len(),
            out@ == t@.subrange(i as int, j as int),
        decreases t@.len() - j,
    {
        out.push(t[j]);
        j = j + 1;
        assert(out@ =~= t@.subrange(i as int, j as int));
    }
    proof {
        if i < t@.len() {
            assert(t@.skip(i as int)[0] == t@[i as int]);
        }
        assert(out@ =~= t@.skip(i as int));
    }
    out
}

fn skip_chars(t: &[char], n: usize) -> (r: Vec<char>)
    requires
        n <= t@.len(),
    ensures
        r@ == t@.skip(n as int),
{
    let mut out: Vec<char> = Vec::new();
    let mut j: usize = n;
    while j < t.len()
        invariant
            n <= j <= t@.len(),
            out@ == t@.subrange(n as int, j as int),
        decreases t@.len() - j,
    {
        out.push(t[j]);
        j = j + 1;
        assert(out@ =~= t@.subrange(n as int, j as int));
    }
    assert(out@ =~= t@.skip(n as int));
    out
}

fn take_chars(t: &[char], n: usize) -> (r: Vec<char>)
    requires
        n <= t@.len(),
    ensures
        r@ == t@.take(n as int),
{
    let mut out: Vec<char> = Vec::new();
    let mut j: usize = 0;
    while j < n
        invariant
            j <= n <= t@.len(),
            out@ == t@.take(j as int),
        decreases n - j,
    {
        out.push(t[j]);
        j = j + 1;
        assert(out@ =~= t@.take(j as int));
    }
    out
}

fn join_lines(parts: &Vec<Vec<char>>) -> (r: Vec<char>)
    ensures
        r@ == join(parts@.map_values(|p: Vec<char>| p@), "\n"@),
{
    let mut strings: Vec<String> = Vec::new();
    let mut i: usize = 0;
    while i < parts.len()
        invariant
            i <= parts@.len(),
            views(strings@) == parts@.take(i as int).map_values(|p: Vec<char>| p@),
        decreases parts@.len() - i,
    {
        let ghost before = strings@;
        strings.push(string_from_chars(parts[i].as_slice()));
        proof {
            assert(views(strings@) =~= views(before).push(parts@[i as int]@));
            assert(parts@.take(i + 1).map_values(|p: Vec<char>| p@) =~= parts@.take(i as int).map_values(
                |p: Vec<char>| p@,
            ).push(parts@[i as int]@));
        }
        i = i + 1;
    }
    assert(parts@.take(i as int) =~= parts@);
    let s = crate::text::join_strings(&strings, "\n");
    chars_of(s.as_str())
}

fn starts(t: &[char], p: &str) -> (r: bool)
    ensures
        r == starts_with(t@, p@),
{
    crate::text::starts_with_chars(t, chars_of(p).as_slice())
}

fn ends(t: &[char], p: &str) -> (r: bool)
    ensures
        r == ends_with(t@, p@),
{
    crate::text::ends_with_chars(t, chars_of(p).as_slice())
}

fn new_block(kind: ElementType, tag: &'static str, text: Vec<char>, line: &[char]) -> (b: BlockExec)
    ensures
        block_view(b) == block(kind, tag@, text@, line@),
{
    let mut m: Vec<char> = Vec::new();
    push_chars(&mut m, line);
    let mut r: Vec<char> = Vec::new();
    push_chars(&mut r, line);
    BlockExec { kind, tag, text, markdown: m, raw: r }
}

fn markdown_blocks(lines: &Vec<Vec<char>>, Ghost(ls): Ghost<Seq<Seq<char>>>) -> (r: Vec<BlockExec>)
    requires
        lines@.len() == ls.len(),
        forall|k: int| 0 <= k < ls.len() ==> #[trigger] lines@[k]@ == ls[k],
    ensures
        blocks_view(r@) == md_fold(ls).blocks,
{
    let mut in_code = false;
    let mut code: Vec<Vec<char>> = Vec::new();
    let mut out: Vec<BlockExec> = Vec::new();
    let mut i: usize = 0;
    proof {
        assert(ls.take(0) =~= Seq::<Seq<char>>::empty());
        assert(code@.map_values(|p: Vec<char>| p@) =~= Seq::<Seq<char>>::empty());
        assert(blocks_view(out@) =~= Seq::<MdBlock>::empty());
    }
    while i < lines.len()
        invariant
            i <= lines@.len(),
            lines@.len() == ls.len(),
            forall|k: int| 0 <= k < ls.len() ==> #[trigger] lines@[k]@ == ls[k],
            md_fold(ls.take(i as int)) == (MdState {
                in_code,
                code: code@.map_values(|p: Vec<char>| p@),
                blocks: blocks_view(out@),
            }),
        decreases lines@.len() - i,
    {
        proof {
            assert(ls.take(i + 1).drop_last() =~= ls.take(i as int));
            assert(ls.take(i + 1).last() == ls[i as int]);
        }
        let ghost st = md_fold(ls.take(i as int));
        let t = trim_end_chars(lines[i].as_slice());
        let ghost before = out@;
        let ghost code_before = code@;
        if starts(t.as_slice(), "```") {
            if in_code {
                let c = join_lines(&code);
                let mut m: Vec<char> = Vec::new();
                push_str_chars(&mut m, "```\n");
                push_chars(&mut m, c.as_slice());
                push_str_chars(&mut m, "\n```");
                let mut raw: Vec<char> = Vec::new();
                push_chars(&mut raw, c.as_slice());
                out.push(BlockExec { kind: ElementType::Code, tag: "code", text: c, markdown: m, raw });
                code = Vec::new();
                proof {
                    assert(blocks_view(out@) =~= blocks_view(before).push(block_view(out@.last())));
                    assert(code@.map_values(|p: Vec<char>| p@) =~= Seq::<Seq<char>>::empty());
                }
                in_code = false;
            } else {
                in_code = true;
            }
        } else if in_code {
            code.push(t);
            proof {
                assert(code@.map_values(|p: Vec<char>| p@) =~= code_before.map_values(|p: Vec<char>| p@).push(
                    trim_end(ls[i as int]),
                ));
            }
        } else if t.len() == 0 {
        } else {
            let b = if starts(t.as_slice(), "#") {
                let stripped = strip_leading_chars(t.as_slice(), '#');
                new_block(ElementType::Heading, "h", trim_chars(stripped.as_slice()), t.as_slice())
            } else if starts(t.as_slice(), "- ") || starts(t.as_slice(), "* ") {
                proof {
                    reveal_strlit("- ");
                    reveal_strlit("* ");
                }
                let rest = skip_chars(t.as_slice(), 2);
                new_block(ElementType::ListItem, "li", trim_chars(rest.as_slice()), t.as_slice())
            } else if starts(t.as_slice(), ">") {
                let stripped = strip_leading_chars(t.as_slice(), '>');
                new_block(ElementType::Blockquote, "blockquote", trim_chars(stripped.as_slice()), t.as_slice())
            } else {
                let mut text: Vec<char> = Vec::new();
                push_chars(&mut text, t.as_slice());
                new_block(ElementType::Paragraph, "p", text, t.as_slice())
            };
            out.push(b);
            proof {
                assert(blocks_view(out@) =~= blocks_view(before).push(block_view(b)));
            }
        }
        i = i + 1;
    }
    assert(ls.take(i as int) =~= ls);
    out
}

fn strip_prefix_all_chars(s: &[char], p: &str) -> (r: Vec<char>)
    ensures
        r@ == strip_prefix_all(s@, p@),
{
    let pv = chars_of(p);
    let mut cur: Vec<char> = Vec::new();
    push_chars(&mut cur, s);
    while pv.len() > 0 && crate::text::starts_with_chars(cur.as_slice(), pv.as_slice())
        invariant
            pv@ == p@,
            strip_prefix_all(cur@, p@) == strip_prefix_all(s@, p@),
        decreases cur@.len(),
    {
        cur = skip_chars(cur.as_slice(), pv.len());
    }
    cur
}

fn strip_suffix_all_chars(s: &[char], p: &str) -> (r: Vec<char>)
    ensures
        r@ == strip_suffix_all(s@, p@),
{
    let pv = chars_of(p);
    let mut cur: Vec<char> = Vec::new();
    push_chars(&mut cur, s);
    while pv.len() > 0 && crate::text::ends_with_chars(cur.as_slice(), pv.as_slice())
        invariant
            pv@ == p@,
            strip_suffix_all(cur@, p@) == strip_suffix_all(s@, p@),
        decreases cur@.len(),
    {
        cur = take_chars(cur.as_slice(), cur.len() - pv.len());
    }
    cur
}

fn markdown_formulas(lines: &Vec<Vec<char>>, Ghost(ls): Ghost<Seq<Seq<char>>>) -> (r: Vec<Vec<char>>)
    requires
        lines@.len() == ls.len(),
        forall|k: int| 0 <= k < ls.len() ==> #[trigger] lines@[k]@ == ls[k],
    ensures
        r@.map_values(|p: Vec<char>| p@) == formula_fold(ls).found,
{
    let mut in_block = false;
    let mut block_lines: Vec<Vec<char>> = Vec::new();
    let mut found: Vec<Vec<char>> = Vec::new();
    let mut i: usize = 0;
    proof {
        assert(ls.take(0) =~= Seq::<Seq<char>>::empty());
        assert(block_lines@.map_values(|p: Vec<char>| p@) =~= Seq::<Seq<char>>::empty());
        assert(found@.map_values(|p: Vec<char>| p@) =~= Seq::<Seq<char>>::empty());
    }
    while i < lines.len()
        invariant
            i <= lines@.len(),
            lines@.len() == ls.len(),
            forall|k: int| 0 <= k < ls.len() ==> #[trigger] lines@[k]@ == ls[k],
            formula_fold(ls.take(i as int)) == (FormulaState {
                in_block,
                lines: block_lines@.map_values(|p: Vec<char>| p@),
                found: found@.map_values(|p: Vec<char>| p@),
            }),
        decreases lines@.len() - i,
    {
        proof {
            assert(ls.take(i + 1).drop_last() =~= ls.take(i as int));
            assert(ls.take(i + 1).last() == ls[i as int]);
        }
        let t = trim_chars(lines[i].as_slice());
        let ghost found_before = found@;
        let ghost lines_before = block_lines@;
        if starts(t.as_slice(), "$$") {
            if in_block {
                let joined = join_lines(&block_lines);
                let text = trim_chars(joined.as_slice());
                if text.len() > 0 {
                    found.push(text);
                }
                block_lines = Vec::new();
                in_block = false;
                proof {
                    assert(block_lines@.map_values(|p: Vec<char>| p@) =~= Seq::<Seq<char>>::empty());
                    assert(found@.map_values(|p: Vec<char>| p@) =~= if text@.len() > 0 {
                        found_before.map_values(|p: Vec<char>| p@).push(text@)
                    } else {
                        found_before.map_values(|p: Vec<char>| p@)
                    });
                }
            } else {
                let a = strip_prefix_all_chars(t.as_slice(), "$$");
                let b = trim_chars(a.as_slice());
                let c = strip_suffix_all_chars(b.as_slice(), "$$");
                let tail = trim_chars(c.as_slice());
                let ts = string_from_chars(t.as_slice());
                if tail.len() > 0 && ends(t.as_slice(), "$$") && ts.as_str().len() > 4 {
                    found.push(tail);
                    proof {
                        assert(found@.map_values(|p: Vec<char>| p@) =~= found_before.map_values(
                            |p: Vec<char>| p@,
                        ).push(tail@));
                    }
                } else {
                    in_block = true;
                    block_lines = Vec::new();
                    proof {
                        assert(block_lines@.map_values(|p: Vec<char>| p@) =~= Seq::<Seq<char>>::empty());
                    }
                }
            }
        } else if in_block {
            block_lines.push(t);
            proof {
                assert(block_lines@.map_values(|p: Vec<char>| p@) =~= lines_before.map_values(
                    |p: Vec<char>| p@,
                ).push(trim(ls[i as int])));
            }
        } else {
            let ts = string_from_chars(t.as_slice());
            if starts(t.as_slice(), "\\[") && ends(t.as_slice(), "\\]") && ts.as_str().len() >= 4 {
                let a = strip_prefix_all_chars(t.as_slice(), "\\[");
                let b = strip_suffix_all_chars(a.as_slice(), "\\]");
                let text = trim_chars(b.as_slice());
                if text.len() > 0 {
                    found.push(text);
                    proof {
                        assert(found@.map_values(|p: Vec<char>| p@) =~= found_before.map_values(
                            |p: Vec<char>| p@,
                        ).push(text@));
                    }
                }
            }
        }
        i = i + 1;
    }
    assert(ls.take(i as int) =~= ls);
    found
}

/// The formulas of a markdown text as the elements that follow its `start_order - 1`
/// blocks.
pub fn extract_markdown_formulas(markdown: &str, start_order: u32) -> (r: Vec<Element>)
    requires
        start_order >= 1,
        start_order + md_formulas(markdown@).len() <= u32::MAX,
    ensures
        r@.len() == md_formulas(markdown@).len(),
        forall|j: int|
            #![trigger r@[j]]
            0 <= j < r@.len() ==> {
                &&& md_element(
                    r@[j],
                    start_order - 1 + j,
                    formula_block(md_formulas(markdown@)[j]),
                )
                &&& r@[j].role.is_some() && r@[j].role.unwrap()@ == "math_formula"@
                &&& r@[j].extra@.len() == 2
                &&& r@[j].extra@[0].0@ == "format"@ && r@[j].extra@[0].1@ == "latex"@
                &&& r@[j].extra@[1].0@ == "latex_source"@ && r@[j].extra@[1].1@
                    == md_formulas(markdown@)[j]
            },
{
    let v = chars_of(markdown);
    let lines = lines_of(v.as_slice());
    let found = markdown_formulas(&lines, Ghost(text_lines(markdown@)));
    let ghost fs = md_formulas(markdown@);
    let mut out: Vec<Element> = Vec::new();
    let mut j: usize = 0;
    while j < found.len()
        invariant
            j <= found@.len(),
            found@.map_values(|p: Vec<char>| p@) == fs,
            start_order >= 1,
            start_order + fs.len() <= u32::MAX,
            out@.len() == j,
            forall|q: int|
                #![trigger out@[q]]
                0 <= q < j ==> {
                    &&& md_element(out@[q], start_order - 1 + q, formula_block(fs[q]))
                    &&& out@[q].role.is_some() && out@[q].role.unwrap()@ == "math_formula"@
                    &&& out@[q].extra@.len() == 2
                    &&& out@[q].extra@[0].0@ == "format"@ && out@[q].extra@[0].1@ == "latex"@
                    &&& out@[q].extra@[1].0@ == "latex_source"@ && out@[q].extra@[1].1@ == fs[q]
                },
        decreases found@.len() - j,
    {
        assert(found@[j as int]@ == fs[j as int]);
        let latex = &found[j];
        let mut m: Vec<char> = Vec::new();
        push_str_chars(&mut m, "$$\n");
        push_chars(&mut m, latex.as_slice());
        push_str_chars(&mut m, "\n$$");
        let mut raw: Vec<char> = Vec::new();
        push_chars(&mut raw, latex.as_slice());
        let mut text: Vec<char> = Vec::new();
        push_chars(&mut text, latex.as_slice());
        let b = BlockExec { kind: ElementType::Formula, tag: "formula", text, markdown: m, raw };
        assert(block_view(b) == formula_block(fs[j as int]));
        let mut e = make_element(start_order - 1 + j as u32, &b);
        e.role = Some(to_owned_string("math_formula"));
        e.extra.push((to_owned_string("format"), to_owned_string("latex")));
        e.extra.push((to_owned_string("latex_source"), string_from_chars(latex.as_slice())));
        let ghost k = start_order - 1 + j;
        assert(md_element(e, k, formula_block(fs[j as int])));
        assert(e.extra@[1].1@ == fs[j as int]);
        out.push(e);
        assert(out@[j as int] == e);
        j = j + 1;
    }
    out
}

fn md_table_exec(k: u32, t: &DetectedTable) -> (e: Element)
    requires
        k < u32::MAX,
    ensures
        md_table_element(e, k as int, *t),
{
    let y: i64 = 20 + 28 * k as i64;
    let text = crate::text::join_strings(&t.cell_texts, " | ");
    let mut id: Vec<char> = Vec::new();
    push_str_chars(&mut id, "p1_e");
    push_str_chars(&mut id, decimal_string(k as u64 + 1).as_str());
    let mut extra: Vec<(String, String)> = Vec::new();
    extra.push((to_owned_string("rows"), decimal_string(t.rows as u64)));
    extra.push((to_owned_string("columns"), decimal_string(t.columns as u64)));
    extra.push((to_owned_string("csv"), t.csv.clone()));
    extra.push((to_owned_string("extraction_method"), to_owned_string("markdown_pipe")));
    Element {
        element_id: string_from_chars(id.as_slice()),
        element_type: ElementType::Table,
        tag: Some(to_owned_string("table")),
        role: Some(to_owned_string("data_table")),
        reading_order: Some(k + 1),
        global_order: Some(k + 1),
        bbox: Some(BBox { x0: 40, y0: y, x1: 1160, y1: y + 24 }),
        text: Some(text.clone()),
        markdown: Some(t.markdown.clone()),
        html: Some(t.html.clone()),
        normalized_text: Some(to_lowercase(text.as_str())),
        raw: Some(t.markdown.clone()),
        items: Vec::new(),
        exclude_from_chunks: false,
        table_linearized: Vec::new(),
        provenance: provenance("markdown_parser", "markdown_native_extraction", "path", "line"),
        confidence_permille: crate::extractors::default_confidence(),
        warnings: Vec::new(),
        extra,
    }
}

fn make_element(k: u32, b: &BlockExec) -> (e: Element)
    requires
        k < u32::MAX,
    ensures
        md_element(e, k as int, block_view(*b)),
        e.role.is_none(),
        e.extra@.len() == 0,
{
    let number = decimal_string(k as u64 + 1);
    let mut id: Vec<char> = Vec::new();
    push_str_chars(&mut id, "p1_e");
    push_str_chars(&mut id, number.as_str());
    let text = string_from_chars(b.text.as_slice());
    let y: i64 = 20 + 28 * (k as i64);
    Element {
        element_id: string_from_chars(id.as_slice()),
        element_type: b.kind,
        tag: Some(to_owned_string(b.tag)),
        role: None,
        reading_order: Some(k + 1),
        global_order: Some(k + 1),
        bbox: Some(BBox { x0: 40, y0: y, x1: 1160, y1: y + 24 }),
        text: Some(text.clone()),
        markdown: Some(string_from_chars(b.markdown.as_slice())),
        html: None,
        normalized_text: Some(to_lowercase(text.as_str())),
        raw: Some(string_from_chars(b.raw.as_slice())),
        items: Vec::new(),
        exclude_from_chunks: false,
        table_linearized: Vec::new(),
        provenance: provenance("markdown_parser", "markdown_native_extraction", "path", "line"),
        confidence_permille: crate::extractors::default_confidence(),
        warnings: Vec::new(),
        extra: Vec::new(),
    }
}

/// The document fits the 32-bit counters its statistics and numbering are kept in.
pub open spec fn md_fits(markdown: Seq<char>, table: Option<DetectedTable>) -> bool {
    let text = join(md_texts(markdown, table), "\n"@);
    md_blocks(markdown).len() + 1 + md_formulas(markdown).len() < u32::MAX && text.len() <= u32::MAX
        && crate::extractors::word_count(text) <= u32::MAX
}

/// The model of a markdown document and the pipe table the table detector found
/// in it, if any: one page with an element per block, the table and an element per
/// formula, the elements' texts joined as its text, the markdown itself and its
/// HTML rendering. Nothing comes back where the statistics would overflow their
/// 32-bit counters.
#[verifier::spinoff_prover]
#[verifier::rlimit(40)]
pub fn build_markdown_document(
    classification: &FileClassification,
    markdown: &str,
    processed_at: Option<String>,
    pipe_table: Option<DetectedTable>,
) -> (r: Option<DocumentModel>)
    requires
        classification.input_path@.len() < 0x7fff_ffff_ffff_ffff,
    ensures
        r.is_some() == md_fits(markdown@, pipe_table),
        r matches Some(m) ==> {
            &&& skeleton_model(
                m,
                *classification,
                DocumentFormat::Md,
                ContentMode::Digital,
                PageType::DocumentPage,
                processed_at,
            )
            &&& m.pages@.len() == 1
            &&& m.pages@[0].page_number == 1
            &&& m.pages@[0].page_type == PageType::DocumentPage
            &&& md_elements_ok(m.pages@[0].elements@, markdown@, pipe_table)
            &&& m.pages@[0].text@ == join(md_texts(markdown@, pipe_table), "\n"@)
            &&& m.pages@[0].markdown@ == markdown@
            &&& m.pages@[0].html@ == commonmark_html(markdown@)
            &&& m.document_profile.has_tables == pipe_table.is_some()
            &&& m.document_profile.has_images == seq_contains(markdown@, "!["@)
            &&& m.document_profile.has_formulas == seq_contains(markdown@, "$$"@)
            &&& m.stats == stats_for(m.pages@)
            &&& m.processing.stages@.len() == 1
            &&& m.processing.stages@[0].name@ == "markdown_ast_parse"@
            &&& m.processing.stages@[0].tool@ == "pulldown-cmark"@
            &&& m.processing.total_duration_ms == Some(1u64)
        },
{
    let v = chars_of(markdown);
    let lines = lines_of(v.as_slice());
    let ghost ls = text_lines(markdown@);
    let blocks = markdown_blocks(&lines, Ghost(ls));
    let found = markdown_formulas(&lines, Ghost(ls));
    let nb = blocks.len();
    let ghost bs = md_blocks(markdown@);
    let ghost fs = md_formulas(markdown@);
    if nb as u128 + found.len() as u128 + 1 >= 0xffff_ffff {
        return None;
    }
    let mut elements: Vec<Element> = Vec::new();
    let mut texts: Vec<String> = Vec::new();
    let mut k: usize = 0;
    while k < nb
        invariant
            k <= nb,
            nb == blocks@.len(),
            blocks_view(blocks@) == bs,
            nb + 1 + fs.len() < u32::MAX,
            elements@.len() == k,
            forall|q: int| 0 <= q < k ==> #[trigger] md_element(elements@[q], q, bs[q])
                && elements@[q].role.is_none() && elements@[q].extra@.len() == 0,
            views(texts@) == bs.take(k as int).map_values(|b: MdBlock| b.text),
        decreases nb - k,
    {
        assert(block_view(blocks@[k as int]) == bs[k as int]);
        let e = make_element(k as u32, &blocks[k]);
        let ghost before = texts@;
        texts.push(string_from_chars(blocks[k].text.as_slice()));
        proof {
            assert(views(texts@) =~= views(before).push(bs[k as int].text));
            assert(bs.take(k + 1).map_values(|b: MdBlock| b.text) =~= bs.take(k as int).map_values(
                |b: MdBlock| b.text,
            ).push(bs[k as int].text));
        }
        elements.push(e);
        k = k + 1;
    }
    proof {
        assert(bs.take(nb as int) =~= bs);
        assert(found@.map_values(|p: Vec<char>| p@) == fs);
    }
    let has_table = pipe_table.is_some();
    let ghost tt: Seq<Seq<char>> = if has_table { seq![table_text(pipe_table.unwrap())] } else { Seq::empty() };
    match &pipe_table {
        Some(tb) => {
            let e = md_table_exec(nb as u32, tb);
            let ghost before = texts@;
            let t = e.text.clone();
            match t {
                Some(tx) => {
                    texts.push(tx);
                },
                None => {},
            }
            assert(views(texts@) =~= views(before).push(table_text(*tb)));
            elements.push(e);
        },
        None => {},
    }
    let ghost es1 = elements@;
    let t: usize = if has_table { 1 } else { 0 };
    assert(t == table_count(pipe_table));
    assert(views(texts@) == bs.map_values(|b: MdBlock| b.text) + tt);
    let formula_elems = extract_markdown_formulas(markdown, nb as u32 + 1);
    let mut j: usize = 0;
    while j < formula_elems.len()
        invariant
            j <= formula_elems@.len(),
            formula_elems@.len() == fs.len(),
            found@.map_values(|p: Vec<char>| p@) == fs,
            nb == bs.len(),
            forall|q: int|
                #![trigger formula_elems@[q]]
                0 <= q < formula_elems@.len() ==> {
                    &&& md_element(formula_elems@[q], nb + q, formula_block(fs[q]))
                    &&& formula_elems@[q].role.is_some() && formula_elems@[q].role.unwrap()@ == "math_formula"@
                    &&& formula_elems@[q].extra@.len() == 2
                    &&& formula_elems@[q].extra@[0].0@ == "format"@ && formula_elems@[q].extra@[0].1@ == "latex"@
                    &&& formula_elems@[q].extra@[1].0@ == "latex_source"@ && formula_elems@[q].extra@[1].1@ == fs[q]
                },
            views(texts@) == bs.map_values(|b: MdBlock| b.text) + tt + fs.take(j as int),
        decreases formula_elems@.len() - j,
    {
        assert(found@[j as int]@ == fs[j as int]);
        let ghost before = texts@;
        texts.push(string_from_chars(found[j].as_slice()));
        proof {
            assert(views(texts@) =~= views(before).push(fs[j as int]));
            assert(fs.take(j + 1) =~= fs.take(j as int).push(fs[j as int]));
        }
        j = j + 1;
    }
    let mut formula_elems = formula_elems;
    let ghost fe = formula_elems@;
    elements.append(&mut formula_elems);
    proof {
        assert(fs.take(j as int) =~= fs);
        assert(views(texts@) =~= md_texts(markdown@, pipe_table));
        assert(elements@ =~= es1 + fe);
        assert(es1.len() == nb + t);
        assert forall|q: int| #![trigger elements@[q]] nb + t <= q < elements@.len() implies {
            &&& md_element(elements@[q], q - t, formula_block(fs[q - nb - t]))
            &&& elements@[q].role.is_some() && elements@[q].role.unwrap()@ == "math_formula"@
            &&& elements@[q].extra@.len() == 2
            &&& elements@[q].extra@[0].0@ == "format"@ && elements@[q].extra@[0].1@ == "latex"@
            &&& elements@[q].extra@[1].0@ == "latex_source"@ && elements@[q].extra@[1].1@ == fs[q - nb - t]
        } by {
            assert(elements@[q] == fe[q - nb - t]);
        }
        assert forall|q: int| 0 <= q < nb implies #[trigger] md_element(elements@[q], q, bs[q])
            && elements@[q].role.is_none() && elements@[q].extra@.len() == 0 by {
            assert(elements@[q] == es1[q]);
        }
        if has_table {
            assert(elements@[nb as int] == es1[nb as int]);
        }
        assert(md_elements_ok(elements@, markdown@, pipe_table));
    }
    let text = crate::text::join_strings(&texts, "\n");
    let html = render_markdown_html(markdown);
    let mut model = base_document_model(
        classification,
        DocumentFormat::Md,
        ContentMode::Digital,
        PageType::DocumentPage,
        processed_at,
    );
    let mut page = model.pages.remove(0);
    page.elements = elements;
    page.text = text;
    page.markdown = to_owned_string(markdown);
    page.html = html;
    model.pages.push(page);
    proof {
        assert(model.pages@.drop_last() =~= Seq::<Page>::empty());
        let c = crate::extractors::StatsCount {
            chars: page.text@.len(),
            words: crate::extractors::word_count(page.text@),
            ..crate::extractors::zero_count()
        };
        crate::extractors::lemma_count_elements_grows(c, page.elements@);
    }
    if !stats_fit(&model.pages) {
        return None;
    }
    update_stats(&mut model);
    model.document_profile.has_tables = has_table;
    model.document_profile.has_images = str_contains(markdown, "![");
    model.document_profile.has_formulas = str_contains(markdown, "$$");
    model.processing.stages.push(stage("markdown_ast_parse", "pulldown-cmark", 1));
    model.processing.total_duration_ms = Some(1);
    Some(model)
}

} // verus!
